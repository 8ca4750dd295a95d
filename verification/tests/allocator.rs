//! The allocator driven against a simulated operating system.

use std::collections::HashMap;

use huge_allocator::layout::{FatPtr, Layout};
use huge_allocator::mmap::{MMap, MapError, MapRequest, RemapRequest};
use huge_allocator::mmapper::{AllocError, CopyRequest, MMapper, Request, Step, Task};
use huge_allocator::page::{DefaultPageSize, PageSize};
use huge_allocator::{HugeAllocator, HugeAllocatorStats};

fn mb(mb: usize) -> usize {
    mb * 1024 * 1024
}

struct Mapping {
    bytes: Vec<u8>,
    huge: bool,
}

/// A stand-in for the operating system: it hands out addresses, keeps the
/// bytes of each mapping, and has a given number of huge pages to give.
struct Os {
    /// Refuses every mapping
    exhausted: bool,
    huge_bytes: usize,
    huge_pages_free: usize,
    next_addr: usize,
    mappings: HashMap<usize, Mapping>,
    maps: usize,
    remaps: usize,
    unmaps: usize,
    copies: usize,
}

impl Os {
    fn new(huge_pages: usize) -> Os {
        Os {
            exhausted: false,
            huge_bytes: huge_pages * mb(2),
            huge_pages_free: huge_pages,
            next_addr: mb(64),
            mappings: HashMap::new(),
            maps: 0,
            remaps: 0,
            unmaps: 0,
            copies: 0,
        }
    }

    fn fresh_addr(&mut self, length: usize) -> usize {
        let addr = self.next_addr;
        self.next_addr += (length / mb(2) + 2) * mb(2);
        addr
    }

    fn mmap(&mut self, request: &MapRequest) -> Result<usize, MapError> {
        self.maps += 1;
        assert!(request.read && request.write);
        assert!(request.flags.anonymous && request.flags.private);
        assert_eq!(request.flags.huge_tlb, request.flags.huge_2mb);
        if request.length == 0 || self.exhausted {
            return Err(MapError);
        }
        if request.flags.huge_tlb {
            assert_eq!(0, request.length % mb(2));
            let pages = request.length / mb(2);
            if pages > self.huge_pages_free {
                return Err(MapError);
            }
            self.huge_pages_free -= pages;
        }
        let addr = self.fresh_addr(request.length);
        self.mappings.insert(
            addr,
            Mapping { bytes: vec![0; request.length], huge: request.flags.huge_tlb },
        );
        Ok(addr)
    }

    /// Resizes mappings on default pages, moving those that grow, and refuses
    /// to resize mappings on huge pages.
    fn mremap(&mut self, request: &RemapRequest) -> Result<usize, MapError> {
        self.remaps += 1;
        assert!(request.may_move);
        let mut mapping = self.mappings.remove(&request.addr).expect("no mapping to resize");
        assert_eq!(request.old_length, mapping.bytes.len());
        if mapping.huge || request.new_length == 0 {
            self.mappings.insert(request.addr, mapping);
            return Err(MapError);
        }
        mapping.bytes.resize(request.new_length, 0);
        let addr = if request.new_length > request.old_length {
            self.fresh_addr(request.new_length)
        } else {
            request.addr
        };
        self.mappings.insert(addr, mapping);
        Ok(addr)
    }

    /// Releases a segment: unmaps its pages, if it has any.
    fn munmap(&mut self, segment: MMap) {
        let request = match segment.unmap_request() {
            Some(request) => request,
            None => {
                assert!(segment.is_empty());
                return;
            }
        };
        assert_eq!((segment.as_ptr(), segment.alloc_size()), (request.addr, request.length));
        self.unmaps += 1;
        let mapping = self.mappings.remove(&request.addr).expect("no mapping to unmap");
        assert_eq!(request.length, mapping.bytes.len());
        if mapping.huge {
            self.huge_pages_free += mapping.bytes.len() / mb(2);
        }
    }

    fn copy(&mut self, request: &CopyRequest) {
        self.copies += 1;
        let bytes = self.mappings[&request.src].bytes[..request.len].to_vec();
        self.mappings.get_mut(&request.dst).expect("no mapping to copy to").bytes[..request.len]
            .copy_from_slice(&bytes);
    }

    fn fill(&mut self, region: FatPtr, len: usize) {
        let bytes = &mut self.mappings.get_mut(&region.addr).expect("no mapping to fill").bytes;
        assert_eq!(region.len, bytes.len());
        for i in 0..len {
            bytes[i] = (i % 251) as u8 + 1;
        }
    }

    fn holds(&self, region: FatPtr, len: usize) -> bool {
        let bytes = &self.mappings[&region.addr].bytes;
        region.len == bytes.len() && (0..len).all(|i| bytes[i] == (i % 251) as u8 + 1)
    }

    fn write(&mut self, addr: usize, offset: usize, value: usize) {
        self.mappings.get_mut(&addr).expect("no mapping to write to").bytes[offset..offset + 8]
            .copy_from_slice(&(value as u64).to_le_bytes());
    }

    fn read(&self, addr: usize, offset: usize) -> usize {
        let mut bytes = [0u8; 8];
        bytes.copy_from_slice(&self.mappings[&addr].bytes[offset..offset + 8]);
        u64::from_le_bytes(bytes) as usize
    }
}

/// Performs what a step asks for until nothing is left to ask, then the copy
/// and the releases, and returns the result.
fn run(allocator: &mut HugeAllocator, os: &mut Os, first: Step) -> Result<FatPtr, AllocError> {
    let mut step = first;
    loop {
        match step {
            Step::Pending(task) => {
                assert!(allocator.fits(&task));
                let outcome = match allocator.request(&task) {
                    Request::Mmap(request) => os.mmap(&request),
                    Request::Mremap(request) => os.mremap(&request),
                };
                step = allocator.resume(task, outcome);
            }
            Step::Done(done) => {
                if let Some(copy) = done.copy {
                    os.copy(&copy);
                }
                if let Some(segment) = done.retired {
                    os.munmap(segment);
                }
                if let Some(segment) = done.displaced {
                    os.munmap(segment);
                }
                return done.result;
            }
        }
    }
}

fn layout(size: usize) -> Layout {
    Layout::from_size_align(size, 8).expect("a layout")
}

fn allocate(allocator: &mut HugeAllocator, os: &mut Os, size: usize) -> Result<FatPtr, AllocError> {
    let step = allocator.allocate(layout(size));
    run(allocator, os, step)
}

/// Starts an allocation for some bytes, and returns the task to perform.
fn begin(allocator: &mut HugeAllocator, size: usize) -> Task {
    match allocator.allocate(layout(size)) {
        Step::Pending(task) => task,
        Step::Done(_) => panic!("a mapping is to be asked for"),
    }
}

fn deallocate(allocator: &mut HugeAllocator, os: &mut Os, addr: usize, size: usize) {
    if !allocator.contains(addr) {
        panic!("HugeAllocator::deallocate: Failed to dealloc ({:?})", AllocError);
    }
    os.munmap(allocator.deallocate(addr, layout(size)));
}

fn grow(
    allocator: &mut HugeAllocator,
    os: &mut Os,
    addr: usize,
    old_size: usize,
    new_size: usize,
) -> Result<FatPtr, AllocError> {
    assert!(new_size >= old_size);
    let step = allocator.grow(addr, layout(old_size), layout(new_size));
    run(allocator, os, step)
}

fn shrink(
    allocator: &mut HugeAllocator,
    os: &mut Os,
    addr: usize,
    old_size: usize,
    new_size: usize,
) -> Result<FatPtr, AllocError> {
    assert!(new_size <= old_size);
    let step = allocator.shrink(addr, layout(old_size), layout(new_size));
    run(allocator, os, step)
}

/// A vector of `usize` that keeps its items in memory of the allocator, and
/// grows and shrinks as `Vec` does.
struct Items {
    addr: usize,
    cap: usize,
    len: usize,
}

impl Items {
    fn new() -> Items {
        Items { addr: 0, cap: 0, len: 0 }
    }

    fn push(&mut self, allocator: &mut HugeAllocator, os: &mut Os, value: usize) {
        if self.len == self.cap {
            let cap = std::cmp::max(self.cap * 2, 4);
            let region = if self.cap == 0 {
                allocate(allocator, os, cap * 8)
            } else {
                grow(allocator, os, self.addr, self.cap * 8, cap * 8)
            }
            .expect("memory to grow into");
            assert!(region.len >= cap * 8);
            self.addr = region.addr;
            self.cap = cap;
        }
        os.write(self.addr, self.len * 8, value);
        self.len += 1;
    }

    fn pop(&mut self, os: &Os) -> Option<usize> {
        if self.len == 0 {
            return None;
        }
        self.len -= 1;
        Some(os.read(self.addr, self.len * 8))
    }

    fn shrink_to_fit(&mut self, allocator: &mut HugeAllocator, os: &mut Os) {
        if self.cap > self.len {
            if self.len == 0 {
                deallocate(allocator, os, self.addr, self.cap * 8);
                self.addr = 0;
            } else {
                let region = shrink(allocator, os, self.addr, self.cap * 8, self.len * 8)
                    .expect("memory to shrink into");
                assert!(region.len >= self.len * 8);
                self.addr = region.addr;
            }
            self.cap = self.len;
        }
    }

    fn len(&self) -> usize {
        self.len
    }

    fn capacity(&self) -> usize {
        self.cap
    }
}

fn check_stats(
    allocator: &HugeAllocator,
    os: &Os,
    desc: &str,
    expected_segs: usize,
    expected_mapped: usize,
) -> HugeAllocatorStats {
    let stats = allocator.stats().unwrap();

    println!("{}: {:?}", desc, stats);

    assert_eq!(expected_segs, stats.segments, "{} segments", desc);

    let avail_bytes = os.huge_bytes;

    if avail_bytes >= mb(6) {
        // Enough huge pages to satisfy
        assert_eq!(expected_mapped, stats.mapped, "{} mapped", desc);
        if expected_mapped >= mb(2) {
            assert_eq!(expected_mapped, stats.huge_mapped, "{} huge mapped", desc);
            assert_eq!(0, stats.default_mapped, "{} default mapped", desc);
        } else {
            assert_eq!(0, stats.huge_mapped, "{} huge mapped", desc);
            assert_eq!(expected_mapped, stats.default_mapped, "{} default mapped", desc);
        }
    } else if stats.huge_segments > 0 {
        // Allocation is huge - check size
        assert_eq!(expected_mapped, stats.mapped, "{} mapped", desc);
        assert_eq!(expected_mapped, stats.huge_mapped, "{} huge mapped", desc);
        assert_eq!(0, stats.default_mapped, "{} default mapped", desc);
    } else {
        // Allocation is in default pages
        assert!(stats.mapped >= stats.alloc, "{} mapped >= alloc", desc);
        assert_eq!(0, stats.huge_mapped, "{} huge mapped", desc);
        assert!(stats.default_mapped >= stats.alloc, "{} default mapped >= alloc", desc);
    }

    assert_eq!(stats.default_segments + stats.huge_segments, stats.segments, "{} segment sum", desc);
    assert_eq!(stats.default_mapped + stats.huge_mapped, stats.mapped, "{} mapped sum", desc);
    assert_eq!(stats.default_alloc + stats.huge_alloc, stats.alloc, "{} alloc sum", desc);

    // What is tracked is what is mapped
    assert_eq!(stats.segments, os.mappings.len(), "{} mappings", desc);
    assert_eq!(
        stats.mapped,
        os.mappings.values().map(|m| m.bytes.len()).sum::<usize>(),
        "{} mapped bytes",
        desc
    );

    stats
}

fn check_stats_eq(
    allocator: &HugeAllocator,
    os: &Os,
    desc: &str,
    expected_alloc: usize,
    expected_segs: usize,
    expected_mapped: usize,
) {
    let stats = check_stats(allocator, os, desc, expected_segs, expected_mapped);
    assert_eq!(expected_alloc, stats.alloc, "{} alloc", desc);
}

fn check_stats_gt(
    allocator: &HugeAllocator,
    os: &Os,
    desc: &str,
    expected_alloc: usize,
    expected_segs: usize,
    expected_mapped: usize,
) {
    let stats = check_stats(allocator, os, desc, expected_segs, expected_mapped);
    assert!(stats.alloc > expected_alloc, "{} alloc", desc);
}

fn check_stats_ge(
    allocator: &HugeAllocator,
    os: &Os,
    desc: &str,
    expected_alloc: usize,
    expected_segs: usize,
    expected_mapped: usize,
) {
    let stats = check_stats(allocator, os, desc, expected_segs, expected_mapped);
    assert!(stats.alloc >= expected_alloc, "{} alloc", desc);
}

fn check_stats_lt(
    allocator: &HugeAllocator,
    os: &Os,
    desc: &str,
    expected_alloc: usize,
    expected_segs: usize,
    expected_mapped: usize,
) {
    let stats = check_stats(allocator, os, desc, expected_segs, expected_mapped);
    assert!(stats.alloc < expected_alloc, "{} alloc", desc);
}

/// Grows a vector to 4mb of items and shrinks it again, checking the
/// statistics at each megabyte.
fn grow_and_shrink(allocator: &mut HugeAllocator, os: &mut Os) {
    let mut vec = Items::new();

    // 512 * 1024 * 8 = 4mb
    let items = 512 * 1024;

    let vec_mb = |items: usize| {
        let bytes = items * 8;

        if bytes % mb(1) == 0 {
            Some(bytes / mb(1))
        } else {
            None
        }
    };

    for i in 0..items {
        let on_mb = vec_mb(i);

        if let Some(cur) = on_mb {
            match cur {
                0 => check_stats_eq(allocator, os, "initial", 0, 0, 0), // No allocation
                1 => check_stats_ge(allocator, os, ">= 1mb", mb(cur), 1, mb(2)), // 2mb in huge pages
                2 => check_stats_ge(allocator, os, ">= 2mb", mb(cur), 1, mb(2)), // 2mb in huge pages
                3 => check_stats_ge(allocator, os, ">= 3mb", mb(cur), 1, mb(4)), // 4mb in huge pages
                _ => panic!("mb boundary not handled"),
            }
        }

        vec.push(allocator, os, i);

        if let Some(cur) = on_mb {
            match cur {
                0 => check_stats_gt(allocator, os, "> 0", 0, 1, 4096), // 4k in default pages
                1 => check_stats_gt(allocator, os, "> 1mb", mb(cur), 1, mb(2)), // 2mb in huge pages
                2 => check_stats_gt(allocator, os, "> 2mb", mb(cur), 1, mb(4)), // 4mb in huge pages
                3 => check_stats_gt(allocator, os, "> 3mb", mb(cur), 1, mb(4)), // 4mb in huge pages
                _ => panic!("mb boundary not handled"),
            }
        }
    }

    assert_eq!(vec.len(), items, "vector entries incorrect");

    println!("Popping {} items ({} bytes)", items, items * 8);

    for i in (0..items).rev() {
        assert_eq!(Some(i), vec.pop(os));

        assert_eq!(i, vec.len());

        if let Some(cur) = vec_mb(i + 1) {
            vec.shrink_to_fit(allocator, os);

            assert_eq!(i, vec.capacity());

            match cur {
                0 => check_stats_eq(allocator, os, "0", 0, 0, 0), // No allocation
                1 => check_stats_lt(allocator, os, "< 1mb", mb(cur), 1, mb(1)), // < 1mb in default pages
                2 => check_stats_lt(allocator, os, "< 2mb", mb(cur), 1, mb(2)), // < 2mb in huge or default pages
                3 => check_stats_lt(allocator, os, "< 3mb", mb(cur), 1, mb(4)), // < 4mb in huge or default pages
                4 => check_stats_lt(allocator, os, "< 4mb", mb(cur), 1, mb(4)), // < 4mb in huge or default pages
                _ => panic!("mb boundary not handled"),
            }
        }
    }
}

#[test]
fn huge_alloc() {
    let mut allocator = HugeAllocator::new(50).expect("the system's page size");
    let mut os = Os::new(3);

    grow_and_shrink(&mut allocator, &mut os);

    // Every huge page went back when its segment left
    let stats = allocator.stats().unwrap();
    assert_eq!(1, stats.segments);
    // The fourteen doublings from 32 bytes to 512kb stayed on default pages
    assert_eq!(14, stats.missed_allocs);
    assert_eq!(0, stats.missed_mb);
    assert_eq!(512 * 1024 - 32, stats.missed_bytes);
    assert_eq!(3, os.huge_pages_free);
}

#[test]
fn huge_alloc_without_huge_pages() {
    let page = DefaultPageSize::new(4096).expect("a page size");
    let mut allocator = HugeAllocator::with_default_page(50, page);
    let mut os = Os::new(0);

    grow_and_shrink(&mut allocator, &mut os);

    let stats = allocator.stats().unwrap();
    assert_eq!(1, stats.segments);
    assert_eq!(0, stats.huge_segments);
    assert!(stats.missed_allocs >= 1);
}

fn allocator_4k(threshold_pct: usize) -> HugeAllocator {
    HugeAllocator::with_default_page(threshold_pct, DefaultPageSize::new(4096).expect("a page size"))
}

#[test]
fn stats_of_an_empty_allocator() {
    let allocator = allocator_4k(50);
    let stats = allocator.stats().unwrap();
    assert_eq!(
        HugeAllocatorStats {
            alloc: 0,
            mapped: 0,
            segments: 0,
            default_alloc: 0,
            default_mapped: 0,
            default_segments: 0,
            huge_alloc: 0,
            huge_mapped: 0,
            huge_segments: 0,
            missed_allocs: 0,
            missed_mb: 0,
            missed_bytes: 0,
            remaps_failed: 0,
            efficiency: 100,
        },
        stats
    );
}

#[test]
fn allocate_maps_whole_pages() {
    let mut allocator = allocator_4k(50);
    let mut os = Os::new(3);

    let region = allocate(&mut allocator, &mut os, 100).unwrap();
    assert_eq!(4096, region.len);
    assert!(os.mappings.contains_key(&region.addr));

    let stats = allocator.stats().unwrap();
    assert_eq!(100, stats.alloc);
    assert_eq!(4096, stats.mapped);
    assert_eq!(1, stats.segments);
    assert_eq!(1, stats.default_segments);
    assert_eq!(0, stats.huge_segments);
    assert_eq!(0, stats.missed_allocs);
    // 100 * 100 / 4096 = 2.44
    assert_eq!(2, stats.efficiency);

    let second = allocate(&mut allocator, &mut os, 4097).unwrap();
    assert_eq!(8192, second.len);
    assert_ne!(region.addr, second.addr);
    let stats = allocator.stats().unwrap();
    assert_eq!(4197, stats.alloc);
    assert_eq!(12288, stats.mapped);
    assert_eq!(2, stats.segments);
    // 4197 * 100 / 12288 = 34.15
    assert_eq!(34, stats.efficiency);
}

#[test]
fn allocate_takes_huge_pages_from_the_threshold_on() {
    let mut allocator = allocator_4k(50);
    let mut os = Os::new(3);

    let small = allocate(&mut allocator, &mut os, mb(1) - 1).unwrap();
    assert_eq!(mb(1), small.len);
    assert_eq!(3, os.huge_pages_free);

    let big = allocate(&mut allocator, &mut os, mb(1)).unwrap();
    assert_eq!(mb(2), big.len);
    assert_eq!(2, os.huge_pages_free);

    let stats = allocator.stats().unwrap();
    assert_eq!(2, stats.segments);
    assert_eq!(mb(1) - 1, stats.default_alloc);
    assert_eq!(mb(1), stats.default_mapped);
    assert_eq!(1, stats.default_segments);
    assert_eq!(mb(1), stats.huge_alloc);
    assert_eq!(mb(2), stats.huge_mapped);
    assert_eq!(1, stats.huge_segments);
    assert_eq!(mb(2) - 1, stats.alloc);
    assert_eq!(mb(3), stats.mapped);
    assert_eq!(0, stats.missed_allocs);
    // (2mb - 1) * 100 / 3mb = 66.66
    assert_eq!(66, stats.efficiency);
}

#[test]
fn allocate_falls_back_to_default_pages() {
    let mut allocator = allocator_4k(50);
    let mut os = Os::new(0);

    let region = allocate(&mut allocator, &mut os, mb(1) + mb(1) / 2).unwrap();
    assert_eq!(mb(1) + mb(1) / 2, region.len);
    // One request for huge pages, one for default pages
    assert_eq!(2, os.maps);

    let stats = allocator.stats().unwrap();
    assert_eq!(1, stats.default_segments);
    assert_eq!(0, stats.huge_segments);
    assert_eq!(1, stats.missed_allocs);
    assert_eq!(1, stats.missed_mb);
    assert_eq!(mb(1) / 2, stats.missed_bytes);
}

#[test]
fn allocate_on_default_pages_by_choice_misses_nothing() {
    let mut allocator = allocator_4k(50);
    let mut os = Os::new(0);

    allocate(&mut allocator, &mut os, mb(1) - 1).unwrap();
    assert_eq!(1, os.maps);

    let stats = allocator.stats().unwrap();
    assert_eq!(0, stats.missed_allocs);
    assert_eq!(0, stats.missed_mb);
    assert_eq!(0, stats.missed_bytes);
}

#[test]
fn missed_bytes_carry_over_above_a_megabyte() {
    let mut allocator = allocator_4k(50);
    let mut os = Os::new(0);

    // A megabyte is not yet more than a megabyte
    allocate(&mut allocator, &mut os, mb(1)).unwrap();
    let stats = allocator.stats().unwrap();
    assert_eq!(1, stats.missed_allocs);
    assert_eq!(0, stats.missed_mb);
    assert_eq!(mb(1), stats.missed_bytes);

    allocate(&mut allocator, &mut os, mb(1) + 5).unwrap();
    let stats = allocator.stats().unwrap();
    assert_eq!(2, stats.missed_allocs);
    assert_eq!(2, stats.missed_mb);
    assert_eq!(5, stats.missed_bytes);

    allocate(&mut allocator, &mut os, mb(3) - 5).unwrap();
    let stats = allocator.stats().unwrap();
    assert_eq!(3, stats.missed_allocs);
    assert_eq!(5, stats.missed_mb);
    assert_eq!(0, stats.missed_bytes);
}

#[test]
fn allocate_fails_when_default_pages_are_refused() {
    let mut allocator = allocator_4k(50);
    let mut os = Os::new(3);
    os.exhausted = true;

    assert_eq!(Err(AllocError), allocate(&mut allocator, &mut os, 100));
    assert_eq!(1, os.maps);
    assert_eq!(Err(AllocError), allocate(&mut allocator, &mut os, mb(1)));
    assert_eq!(3, os.maps);

    let stats = allocator.stats().unwrap();
    assert_eq!(0, stats.segments);
    assert_eq!(0, stats.missed_allocs);
}

#[test]
fn allocate_nothing_asks_nothing() {
    let mut allocator = allocator_4k(50);
    let mut os = Os::new(3);

    let done = match allocator.allocate(layout(0)) {
        Step::Done(done) => done,
        Step::Pending(_) => panic!("nothing is to be asked for"),
    };
    assert_eq!(Ok(FatPtr { addr: 0, len: 0 }), done.result);
    assert!(done.copy.is_none() && done.retired.is_none() && done.displaced.is_none());
    assert_eq!(0, os.maps);

    let stats = allocator.stats().unwrap();
    assert_eq!(1, stats.segments);
    assert_eq!(1, stats.default_segments);
    assert_eq!(0, stats.alloc);
    assert_eq!(0, stats.mapped);
    assert_eq!(100, stats.efficiency);
    assert_eq!(0, stats.missed_allocs);

    // The empty segment is tracked, and its release asks nothing
    assert!(allocator.contains(0));
    let segment = allocator.deallocate(0, layout(0));
    assert!(segment.is_empty());
    assert_eq!(0, segment.as_ptr());
    assert_eq!(0, segment.alloc_size());
    assert_eq!(None, segment.unmap_request());
    os.munmap(segment);
    assert_eq!(0, os.unmaps);
    assert_eq!(0, allocator.stats().unwrap().segments);
}

#[test]
fn allocate_nothing_on_huge_pages_asks_nothing() {
    let mut allocator = allocator_4k(0);
    let mut os = Os::new(0);

    assert_eq!(Ok(FatPtr { addr: 0, len: 0 }), allocate(&mut allocator, &mut os, 0));
    assert_eq!(0, os.maps);
    let stats = allocator.stats().unwrap();
    assert_eq!(1, stats.huge_segments);
    assert_eq!(0, stats.huge_mapped);
    assert_eq!(0, stats.missed_allocs);
}

#[test]
fn a_second_empty_segment_finds_the_null_address_taken() {
    let mut allocator = allocator_4k(50);
    let mut os = Os::new(3);

    assert_eq!(Ok(FatPtr { addr: 0, len: 0 }), allocate(&mut allocator, &mut os, 0));
    let done = match allocator.allocate(layout(0)) {
        Step::Done(done) => done,
        Step::Pending(_) => panic!("nothing is to be asked for"),
    };
    assert_eq!(Err(AllocError), done.result);
    assert!(done.displaced.expect("the empty segment that stood there").is_empty());
    assert_eq!(1, allocator.stats().unwrap().segments);
    assert_eq!(0, os.maps + os.unmaps);
}

#[test]
fn shrink_to_nothing_releases_the_pages() {
    let mut allocator = allocator_4k(50);
    let mut os = Os::new(3);

    let region = allocate(&mut allocator, &mut os, 5000).unwrap();
    let done = match allocator.shrink(region.addr, layout(5000), layout(0)) {
        Step::Done(done) => done,
        Step::Pending(_) => panic!("nothing is to be asked for"),
    };
    assert_eq!(Ok(FatPtr { addr: 0, len: 0 }), done.result);
    assert!(done.copy.is_none() && done.displaced.is_none());
    let retired = done.retired.expect("the segment that held the bytes");
    assert_eq!(region, retired.fat_ptr());
    os.munmap(retired);
    assert!(os.mappings.is_empty());
    assert_eq!(0, os.remaps);

    let stats = allocator.stats().unwrap();
    assert_eq!(1, stats.segments);
    assert_eq!(0, stats.mapped);
    // No pages can be resized to none: the resize in place has failed
    assert_eq!(1, stats.remaps_failed);
    assert!(allocator.contains(0) && !allocator.contains(region.addr));
}

#[test]
fn grow_from_nothing_asks_for_a_mapping() {
    let mut allocator = allocator_4k(50);
    let mut os = Os::new(3);

    assert_eq!(Ok(FatPtr { addr: 0, len: 0 }), allocate(&mut allocator, &mut os, 0));

    // Still nothing, and no resize has failed
    let same = grow(&mut allocator, &mut os, 0, 0, 0).unwrap();
    assert_eq!(FatPtr { addr: 0, len: 0 }, same);
    assert_eq!(0, allocator.stats().unwrap().remaps_failed);

    let step = allocator.grow(0, layout(0), layout(100));
    match &step {
        Step::Pending(task) => assert_eq!(
            Request::Mmap(MapRequest {
                length: 4096,
                read: true,
                write: true,
                flags: PageSize::SizeDefault.map_flags(),
            }),
            allocator.request(task)
        ),
        Step::Done(_) => panic!("a mapping is to be asked for"),
    }
    let grown = run(&mut allocator, &mut os, step).unwrap();
    assert_eq!(4096, grown.len);
    assert_eq!(1, os.maps);
    assert_eq!(0, os.remaps + os.copies + os.unmaps);

    let stats = allocator.stats().unwrap();
    assert_eq!(1, stats.segments);
    assert_eq!(100, stats.alloc);
    // No pages stood that could be resized: the resize in place has failed
    assert_eq!(1, stats.remaps_failed);
    assert!(!allocator.contains(0));
}

#[test]
fn allocate_zeroed_is_allocate() {
    let mut allocator = allocator_4k(50);
    let mut os = Os::new(3);

    let task = match allocator.allocate_zeroed(layout(mb(1))) {
        Step::Pending(task) => task,
        Step::Done(_) => panic!("a mapping is to be asked for"),
    };
    match allocator.request(&task) {
        Request::Mmap(request) => {
            assert_eq!(mb(2), request.length);
            assert!(request.flags.huge_tlb && request.flags.huge_2mb);
            assert!(request.flags.anonymous && request.flags.private);
            assert!(request.read && request.write);
        }
        Request::Mremap(_) => panic!("a mapping is to be asked for"),
    }
    let region = run(&mut allocator, &mut os, Step::Pending(task)).unwrap();
    assert_eq!(mb(2), region.len);
    assert!(os.mappings[&region.addr].bytes.iter().all(|b| *b == 0));
}

#[test]
fn an_address_that_is_taken_is_an_error() {
    let mut allocator = allocator_4k(50);

    let task = begin(&mut allocator, 100);
    let first = match allocator.resume(task, Ok(0x10000)) {
        Step::Done(done) => done,
        Step::Pending(_) => panic!("the mapping stands"),
    };
    assert_eq!(Ok(FatPtr { addr: 0x10000, len: 4096 }), first.result);
    assert!(first.copy.is_none() && first.retired.is_none() && first.displaced.is_none());

    // The system cannot have mapped the same address again
    let task = begin(&mut allocator, 5000);
    let second = match allocator.resume(task, Ok(0x10000)) {
        Step::Done(done) => done,
        Step::Pending(_) => panic!("the mapping stands"),
    };
    assert_eq!(Err(AllocError), second.result);
    assert!(second.copy.is_none() && second.retired.is_none());
    let displaced = second.displaced.expect("the segment that stood there");
    assert_eq!(0x10000, displaced.as_ptr());
    assert_eq!(100, displaced.size());
    assert_eq!(4096, displaced.alloc_size());

    let stats = allocator.stats().unwrap();
    assert_eq!(1, stats.segments);
    assert_eq!(5000, stats.alloc);
    assert_eq!(8192, stats.mapped);
}

#[test]
fn deallocate_hands_the_segment_out() {
    let mut allocator = allocator_4k(50);
    let mut os = Os::new(3);

    let region = allocate(&mut allocator, &mut os, mb(3)).unwrap();
    assert_eq!(1, os.huge_pages_free);
    let other = allocate(&mut allocator, &mut os, 10).unwrap();

    assert!(allocator.contains(region.addr));
    let segment = allocator.deallocate(region.addr, layout(mb(3)));
    assert_eq!(region.addr, segment.as_ptr());
    assert_eq!(mb(3), segment.size());
    assert_eq!(mb(4), segment.alloc_size());
    os.munmap(segment);
    assert_eq!(3, os.huge_pages_free);

    let stats = allocator.stats().unwrap();
    assert_eq!(1, stats.segments);
    assert_eq!(10, stats.alloc);
    assert_eq!(4096, stats.mapped);

    deallocate(&mut allocator, &mut os, other.addr, 10);
    let stats = allocator.stats().unwrap();
    assert_eq!(0, stats.segments);
    assert_eq!(100, stats.efficiency);
    assert!(os.mappings.is_empty());
}

#[test]
fn deallocate_of_an_untracked_address_fails() {
    let mut allocator = allocator_4k(50);
    let mut os = Os::new(3);

    assert!(!allocator.contains(0x10000));

    let region = allocate(&mut allocator, &mut os, 100).unwrap();
    assert!(!allocator.contains(region.addr + 8));
    assert!(allocator.contains(region.addr));
    assert_eq!(1, allocator.stats().unwrap().segments);
}

#[test]
fn deallocate_twice_fails() {
    let mut allocator = allocator_4k(50);
    let mut os = Os::new(3);

    let region = allocate(&mut allocator, &mut os, 100).unwrap();
    let kept = allocate(&mut allocator, &mut os, 200).unwrap();
    deallocate(&mut allocator, &mut os, region.addr, 100);
    assert!(!allocator.contains(region.addr));

    let stats = allocator.stats().unwrap();
    assert_eq!(1, stats.segments);
    assert_eq!(200, stats.alloc);
    assert!(os.mappings.contains_key(&kept.addr));
}

#[test]
fn segments_are_as_many_as_live_addresses() {
    let mut allocator = allocator_4k(50);
    let mut os = Os::new(2);

    let mut live = Vec::new();
    for i in 0..40 {
        let size = (i % 7) * mb(1) / 4 + 1;
        let region = allocate(&mut allocator, &mut os, size).unwrap();
        assert!(!live.contains(&(region.addr, size)));
        live.push((region.addr, size));
        if i % 3 == 2 {
            let (addr, size) = live.remove(i % live.len());
            deallocate(&mut allocator, &mut os, addr, size);
        }
        let stats = allocator.stats().unwrap();
        assert_eq!(live.len(), stats.segments);
        assert_eq!(live.iter().map(|(_, size)| size).sum::<usize>(), stats.alloc);
        assert_eq!(os.mappings.len(), stats.segments);
    }
    for (addr, size) in live.drain(..) {
        deallocate(&mut allocator, &mut os, addr, size);
    }
    assert_eq!(0, allocator.stats().unwrap().segments);
    assert!(os.mappings.is_empty());
    assert_eq!(2, os.huge_pages_free);
}

#[test]
fn grow_within_the_mapped_size_stays() {
    let mut allocator = allocator_4k(50);
    let mut os = Os::new(3);

    let region = allocate(&mut allocator, &mut os, 100).unwrap();
    os.fill(region, 100);

    let grown = grow(&mut allocator, &mut os, region.addr, 100, 4096).unwrap();
    assert_eq!(region, grown);
    assert!(os.holds(grown, 100));
    assert_eq!(0, os.remaps);
    assert_eq!(0, os.copies);
    assert_eq!(0, os.unmaps);

    let stats = allocator.stats().unwrap();
    assert_eq!(1, stats.segments);
    assert_eq!(4096, stats.alloc);
    assert_eq!(4096, stats.mapped);
    assert_eq!(100, stats.efficiency);
    // The growth stayed on default pages
    assert_eq!(1, stats.missed_allocs);
    assert_eq!(3996, stats.missed_bytes);
}

#[test]
fn grow_on_huge_pages_within_the_mapped_size_stays() {
    let mut allocator = allocator_4k(50);
    let mut os = Os::new(3);

    let region = allocate(&mut allocator, &mut os, mb(1)).unwrap();
    os.fill(region, mb(1));

    let grown = grow(&mut allocator, &mut os, region.addr, mb(1), mb(2)).unwrap();
    assert_eq!(region, grown);
    assert!(os.holds(grown, mb(1)));
    assert_eq!(0, os.remaps);

    let stats = allocator.stats().unwrap();
    assert_eq!(mb(2), stats.huge_alloc);
    assert_eq!(mb(2), stats.huge_mapped);
    assert_eq!(0, stats.missed_allocs);
}

#[test]
fn grow_beyond_the_mapped_size_resizes() {
    let mut allocator = allocator_4k(50);
    let mut os = Os::new(3);

    let region = allocate(&mut allocator, &mut os, 100).unwrap();
    os.fill(region, 100);

    let step = allocator.grow(region.addr, layout(100), layout(5000));
    match &step {
        Step::Pending(task) => assert_eq!(
            Request::Mremap(RemapRequest {
                addr: region.addr,
                old_length: 4096,
                new_length: 8192,
                may_move: true,
            }),
            allocator.request(task)
        ),
        Step::Done(_) => panic!("the system is to be asked"),
    }
    // The segment is out of the table while it is resized
    assert_eq!(0, allocator.stats().unwrap().segments);

    let grown = run(&mut allocator, &mut os, step).unwrap();
    assert_ne!(region.addr, grown.addr);
    assert_eq!(8192, grown.len);
    assert!(os.holds(grown, 100));
    assert_eq!(1, os.remaps);
    assert_eq!(0, os.copies);
    assert_eq!(1, os.maps);

    let stats = allocator.stats().unwrap();
    assert_eq!(1, stats.segments);
    assert_eq!(5000, stats.alloc);
    assert_eq!(8192, stats.mapped);
    assert_eq!(1, stats.missed_allocs);
    assert_eq!(4900, stats.missed_bytes);
    assert_eq!(0, stats.remaps_failed);

    // The old address is no longer tracked
    assert!(!allocator.contains(region.addr));
    deallocate(&mut allocator, &mut os, grown.addr, 5000);
}

#[test]
fn shrink_in_place_misses_nothing() {
    let mut allocator = allocator_4k(50);
    let mut os = Os::new(3);

    let region = allocate(&mut allocator, &mut os, 10000).unwrap();
    assert_eq!(12288, region.len);
    os.fill(region, 10000);

    let shrunk = shrink(&mut allocator, &mut os, region.addr, 10000, 10).unwrap();
    assert_eq!(FatPtr { addr: region.addr, len: 4096 }, shrunk);
    assert!(os.holds(shrunk, 10));
    assert_eq!(1, os.remaps);

    let stats = allocator.stats().unwrap();
    assert_eq!(10, stats.alloc);
    assert_eq!(4096, stats.mapped);
    assert_eq!(0, stats.missed_allocs);
    assert_eq!(0, stats.efficiency);
}

#[test]
fn a_refused_resize_is_counted_and_copies() {
    let mut allocator = allocator_4k(50);
    let mut os = Os::new(3);

    let region = allocate(&mut allocator, &mut os, mb(2)).unwrap();
    assert_eq!(mb(2), region.len);
    os.fill(region, mb(2));

    let grown = grow(&mut allocator, &mut os, region.addr, mb(2), mb(3)).unwrap();
    assert_ne!(region.addr, grown.addr);
    assert_eq!(mb(4), grown.len);
    assert!(os.holds(grown, mb(2)));
    assert_eq!(1, os.remaps);
    assert_eq!(2, os.maps);
    assert_eq!(1, os.copies);
    assert_eq!(1, os.unmaps);
    assert!(!os.mappings.contains_key(&region.addr));
    assert_eq!(1, os.huge_pages_free);

    let stats = allocator.stats().unwrap();
    assert_eq!(1, stats.segments);
    assert_eq!(1, stats.huge_segments);
    assert_eq!(mb(3), stats.alloc);
    assert_eq!(mb(4), stats.mapped);
    assert_eq!(1, stats.remaps_failed);
    assert_eq!(0, stats.missed_allocs);
    assert_eq!(75, stats.efficiency);
}

#[test]
fn grow_across_the_threshold_moves_to_huge_pages() {
    let mut allocator = allocator_4k(50);
    let mut os = Os::new(3);

    let region = allocate(&mut allocator, &mut os, mb(1) / 2).unwrap();
    os.fill(region, mb(1) / 2);

    let step = allocator.grow_zeroed(region.addr, layout(mb(1) / 2), layout(mb(1)));
    match &step {
        Step::Pending(task) => match allocator.request(task) {
            Request::Mmap(request) => {
                assert_eq!(mb(2), request.length);
                assert!(request.flags.huge_tlb);
            }
            Request::Mremap(_) => panic!("a mapping is to be asked for"),
        },
        Step::Done(_) => panic!("the system is to be asked"),
    }
    let grown = run(&mut allocator, &mut os, step).unwrap();
    assert_eq!(mb(2), grown.len);
    assert!(os.holds(grown, mb(1) / 2));
    assert_eq!(0, os.remaps);
    assert_eq!(1, os.copies);
    assert_eq!(1, os.unmaps);

    let stats = allocator.stats().unwrap();
    assert_eq!(1, stats.huge_segments);
    assert_eq!(0, stats.default_segments);
    assert_eq!(0, stats.missed_allocs);
    assert_eq!(0, stats.remaps_failed);
}

#[test]
fn shrink_across_the_threshold_moves_to_default_pages() {
    let mut allocator = allocator_4k(50);
    let mut os = Os::new(3);

    let region = allocate(&mut allocator, &mut os, mb(3)).unwrap();
    assert_eq!(mb(4), region.len);
    os.fill(region, mb(3));
    assert_eq!(1, allocator.stats().unwrap().huge_segments);

    let step = allocator.shrink(region.addr, layout(mb(3)), layout(mb(1) / 2));
    let task = match step {
        Step::Pending(task) => task,
        Step::Done(_) => panic!("the system is to be asked"),
    };
    assert_eq!(
        Request::Mmap(MapRequest {
            length: mb(1) / 2,
            read: true,
            write: true,
            flags: PageSize::SizeDefault.map_flags(),
        }),
        allocator.request(&task)
    );
    let done = match allocator.resume(task, Ok(0x5000_0000)) {
        Step::Done(done) => done,
        Step::Pending(_) => panic!("the mapping stands"),
    };
    assert_eq!(Ok(FatPtr { addr: 0x5000_0000, len: mb(1) / 2 }), done.result);
    assert_eq!(
        Some(CopyRequest { src: region.addr, dst: 0x5000_0000, len: mb(1) / 2 }),
        done.copy
    );
    let retired = done.retired.expect("the segment on huge pages");
    assert_eq!(region.addr, retired.as_ptr());
    assert_eq!(mb(4), retired.alloc_size());
    assert!(done.displaced.is_none());

    let stats = allocator.stats().unwrap();
    assert_eq!(1, stats.segments);
    assert_eq!(1, stats.default_segments);
    assert_eq!(0, stats.huge_segments);
    assert_eq!(mb(1) / 2, stats.default_alloc);
    assert_eq!(mb(1) / 2, stats.default_mapped);
    assert_eq!(0, stats.missed_allocs);
}

#[test]
fn shrink_across_the_threshold_keeps_the_contents() {
    let mut allocator = allocator_4k(50);
    let mut os = Os::new(3);

    let region = allocate(&mut allocator, &mut os, mb(3)).unwrap();
    os.fill(region, mb(3));

    let shrunk = shrink(&mut allocator, &mut os, region.addr, mb(3), mb(1) / 2).unwrap();
    assert_eq!(mb(1) / 2, shrunk.len);
    assert!(os.holds(shrunk, mb(1) / 2));
    assert!(!os.mappings[&shrunk.addr].huge);
    assert!(!os.mappings.contains_key(&region.addr));
    assert_eq!(3, os.huge_pages_free);
}

#[test]
fn realloc_of_an_untracked_address_fails() {
    let mut allocator = allocator_4k(50);
    let mut os = Os::new(3);

    assert_eq!(Err(AllocError), grow(&mut allocator, &mut os, 0x10000, 100, 200));
    assert_eq!(Err(AllocError), shrink(&mut allocator, &mut os, 0x10000, 200, 100));
    assert_eq!(0, os.maps + os.remaps + os.copies + os.unmaps);
    assert_eq!(0, allocator.stats().unwrap().segments);
}

#[test]
fn realloc_that_gets_no_mapping_releases_the_segment() {
    let mut allocator = allocator_4k(50);
    let mut os = Os::new(3);

    let region = allocate(&mut allocator, &mut os, mb(1) / 2).unwrap();
    os.exhausted = true;

    assert_eq!(
        Err(AllocError),
        grow(&mut allocator, &mut os, region.addr, mb(1) / 2, mb(1))
    );
    // Huge pages were refused, then default pages
    assert_eq!(3, os.maps);
    assert_eq!(0, os.copies);
    assert_eq!(1, os.unmaps);
    assert!(os.mappings.is_empty());

    let stats = allocator.stats().unwrap();
    assert_eq!(0, stats.segments);
    assert_eq!(0, stats.missed_allocs);
}

#[test]
fn grow_that_falls_back_counts_the_new_size_as_missed() {
    let mut allocator = allocator_4k(50);
    let mut os = Os::new(0);

    let region = allocate(&mut allocator, &mut os, mb(1) / 2).unwrap();
    os.fill(region, mb(1) / 2);

    // The target is huge pages, the segment stands on default pages
    let grown = grow(&mut allocator, &mut os, region.addr, mb(1) / 2, mb(1) + 1).unwrap();
    assert_eq!(mb(1) + 4096, grown.len);
    assert!(os.holds(grown, mb(1) / 2));
    assert_eq!(0, os.remaps);
    assert_eq!(3, os.maps);
    assert_eq!(1, os.copies);

    let stats = allocator.stats().unwrap();
    assert_eq!(1, stats.default_segments);
    assert_eq!(1, stats.missed_allocs);
    assert_eq!(1, stats.missed_mb);
    assert_eq!(1, stats.missed_bytes);
}

#[test]
fn drain_hands_every_segment_out_once() {
    let mut allocator = allocator_4k(50);
    let mut os = Os::new(1);

    let small = allocate(&mut allocator, &mut os, 100).unwrap();
    let big = allocate(&mut allocator, &mut os, mb(1)).unwrap();
    let missed = allocate(&mut allocator, &mut os, mb(1)).unwrap();
    assert_eq!(3, allocator.stats().unwrap().segments);

    let segments = allocator.drain();
    assert_eq!(3, segments.len());
    let mut regions: Vec<FatPtr> = segments.iter().map(|segment| segment.fat_ptr()).collect();
    regions.sort_by_key(|region| region.addr);
    assert_eq!(vec![small, big, missed], regions);
    for segment in segments {
        os.munmap(segment);
    }
    assert!(os.mappings.is_empty());
    assert_eq!(1, os.huge_pages_free);

    // The table is empty, the counters are kept
    let stats = allocator.stats().unwrap();
    assert_eq!(0, stats.segments);
    assert_eq!(0, stats.mapped);
    assert_eq!(100, stats.efficiency);
    assert_eq!(1, stats.missed_allocs);
    assert_eq!(mb(1), stats.missed_bytes);
    assert!(allocator.drain().is_empty());
    assert!(!allocator.contains(small.addr));
}

#[test]
fn allocate_starts_with_the_target_page_size() {
    let mut allocator = allocator_4k(50);

    match begin(&mut allocator, mb(1) - 1) {
        Task::Mapping { layout, page_size, source } => {
            assert_eq!(mb(1) - 1, layout.size());
            assert_eq!(PageSize::SizeDefault, page_size);
            assert!(source.is_none());
        }
        Task::Remapping { .. } => panic!("a mapping is to be asked for"),
    }
    match begin(&mut allocator, mb(1)) {
        Task::Mapping { layout, page_size, source } => {
            assert_eq!(mb(1), layout.size());
            assert_eq!(PageSize::Size2m, page_size);
            assert!(source.is_none());
        }
        Task::Remapping { .. } => panic!("a mapping is to be asked for"),
    }
}

#[test]
fn refused_huge_pages_are_asked_for_again_on_default_pages() {
    let mut allocator = allocator_4k(50);

    let task = begin(&mut allocator, mb(3));
    let task = match allocator.resume(task, Err(MapError)) {
        Step::Pending(task) => task,
        Step::Done(_) => panic!("default pages are to be asked for"),
    };
    assert_eq!(
        Request::Mmap(MapRequest {
            length: mb(3),
            read: true,
            write: true,
            flags: PageSize::SizeDefault.map_flags(),
        }),
        allocator.request(&task)
    );
    let done = match allocator.resume(task, Err(MapError)) {
        Step::Done(done) => done,
        Step::Pending(_) => panic!("nothing is left to ask for"),
    };
    assert_eq!(Err(AllocError), done.result);
    assert!(done.copy.is_none() && done.retired.is_none() && done.displaced.is_none());
    assert_eq!(0, allocator.stats().unwrap().missed_allocs);
}

#[test]
fn stats_fail_when_the_mapped_bytes_exceed_the_address_space() {
    let mut allocator = allocator_4k(50);
    let half = usize::MAX / 2;

    for addr in [mb(2), mb(4)] {
        let task = begin(&mut allocator, half);
        match allocator.resume(task, Ok(addr)) {
            Step::Done(done) => assert_eq!(Ok(FatPtr { addr, len: half + 1 }), done.result),
            Step::Pending(_) => panic!("the mapping stands"),
        }
    }
    assert_eq!(Err(AllocError), allocator.stats());

    // One of them fits
    assert!(allocator.contains(mb(2)));
    let segment = allocator.deallocate(mb(2), layout(half));
    assert_eq!(half + 1, segment.alloc_size());
    let stats = allocator.stats().unwrap();
    assert_eq!(half, stats.alloc);
    assert_eq!(half + 1, stats.mapped);
    assert_eq!(1, stats.huge_segments);
    assert_eq!(99, stats.efficiency);
}

#[test]
fn segments_follow_reallocations() {
    let mut allocator = allocator_4k(50);
    let mut os = Os::new(2);

    let mut live: Vec<(usize, usize)> = Vec::new();
    for i in 0..12 {
        let size = i * 1000 + 1;
        let region = allocate(&mut allocator, &mut os, size).unwrap();
        os.fill(region, size);
        live.push((region.addr, size));
    }
    for round in 0..6 {
        for (addr, size) in live.iter_mut() {
            let new_size = (*size * 7 + round * mb(1) / 8) % mb(3) + 1;
            let kept = std::cmp::min(*size, new_size);
            let step = if new_size >= *size {
                allocator.grow(*addr, layout(*size), layout(new_size))
            } else {
                allocator.shrink(*addr, layout(*size), layout(new_size))
            };
            let region = run(&mut allocator, &mut os, step).unwrap();
            assert!(region.len >= new_size);
            assert!(os.holds(region, kept));
            os.fill(region, new_size);
            *addr = region.addr;
            *size = new_size;
        }
        let stats = allocator.stats().unwrap();
        assert_eq!(live.len(), stats.segments);
        assert_eq!(os.mappings.len(), stats.segments);
        assert_eq!(live.iter().map(|(_, size)| size).sum::<usize>(), stats.alloc);
        assert_eq!(os.mappings.values().map(|m| m.bytes.len()).sum::<usize>(), stats.mapped);
        assert_eq!(stats.default_mapped + stats.huge_mapped, stats.mapped);
        assert_eq!(stats.alloc * 100 / stats.mapped, stats.efficiency);
    }
    for (addr, size) in live.drain(..) {
        deallocate(&mut allocator, &mut os, addr, size);
    }
    assert!(os.mappings.is_empty());
    assert_eq!(2, os.huge_pages_free);
}

#[test]
fn new_takes_the_page_size_of_the_system() {
    let page = DefaultPageSize::query().expect("the system's page size");
    let mut allocator = HugeAllocator::new(50).expect("the system's page size");

    let task = begin(&mut allocator, 1);
    match allocator.resume(task, Ok(mb(8))) {
        Step::Done(done) => assert_eq!(Ok(FatPtr { addr: mb(8), len: page.bytes() }), done.result),
        Step::Pending(_) => panic!("the mapping stands"),
    }
    let stats = allocator.stats().unwrap();
    assert_eq!(1, stats.default_segments);
    assert_eq!(page.bytes(), stats.default_mapped);
    assert_eq!(0, stats.missed_allocs);
}

fn tracker_4k(threshold_pct: usize) -> MMapper {
    MMapper::with_default_page(threshold_pct, DefaultPageSize::new(4096).expect("a page size"))
}

fn track(mapper: &mut MMapper, size: usize, addr: usize) -> FatPtr {
    let task = match mapper.allocate(layout(size)) {
        Step::Pending(task) => task,
        Step::Done(_) => panic!("a mapping is to be asked for"),
    };
    assert!(mapper.fits(&task));
    match mapper.resume(task, Ok(addr)) {
        Step::Done(done) => done.result.expect("a region"),
        Step::Pending(_) => panic!("the mapping stands"),
    }
}

#[test]
fn dealloc_of_an_untracked_address_is_an_error() {
    let mut mapper = tracker_4k(50);

    assert!(matches!(mapper.dealloc(0x10000), Err(AllocError)));
    assert!(matches!(mapper.dealloc(0), Err(AllocError)));

    let region = track(&mut mapper, 100, 0x10000);
    assert!(matches!(mapper.dealloc(region.addr + 8), Err(AllocError)));
    assert!(mapper.contains(region.addr));
    assert_eq!(1, mapper.stats().unwrap().segments);
}

#[test]
fn dealloc_twice_is_an_error() {
    let mut mapper = tracker_4k(50);

    let region = track(&mut mapper, 100, 0x10000);
    let kept = track(&mut mapper, 200, 0x20000);
    let segment = mapper.dealloc(region.addr).unwrap();
    assert_eq!(region, segment.fat_ptr());
    assert!(matches!(mapper.dealloc(region.addr), Err(AllocError)));
    assert!(matches!(mapper.dealloc(region.addr), Err(AllocError)));

    let stats = mapper.stats().unwrap();
    assert_eq!(1, stats.segments);
    assert_eq!(200, stats.alloc);
    assert!(mapper.contains(kept.addr));
}

#[test]
fn a_task_of_another_platform_does_not_fit() {
    let mut small = tracker_4k(50);
    let mut large =
        MMapper::with_default_page(50, DefaultPageSize::new(65536).expect("a page size"));

    let region = track(&mut large, 100, 0x10000);
    assert_eq!(65536, region.len);
    let task = match large.realloc(region.addr, layout(100), layout(100_000)) {
        Step::Pending(task) => task,
        Step::Done(_) => panic!("a resize is to be asked for"),
    };
    assert!(large.fits(&task));
    assert!(!small.fits(&task));

    // What the small platform tracks is whole pages of its own
    track(&mut small, 100, 0x10000);
    let stats = small.stats().unwrap();
    assert_eq!(4096, stats.default_mapped);
    assert_eq!(0, stats.default_mapped % 4096);
}

#[test]
fn a_resize_is_counted_only_on_the_same_page_size() {
    let mut allocator = allocator_4k(0);
    let mut os = Os::new(3);

    // With a threshold of zero every size goes to huge pages
    let region = allocate(&mut allocator, &mut os, 100).unwrap();
    assert_eq!(mb(2), region.len);
    let done = match allocator.shrink(region.addr, layout(100), layout(0)) {
        Step::Done(done) => done,
        Step::Pending(_) => panic!("nothing is to be asked for"),
    };
    assert_eq!(Ok(FatPtr { addr: 0, len: 0 }), done.result);
    os.munmap(done.retired.expect("the segment on huge pages"));
    assert_eq!(1, allocator.stats().unwrap().remaps_failed);

    // On a tracker whose target for no bytes is default pages, a segment on
    // huge pages that shrinks to nothing changes its page size
    let mut allocator = allocator_4k(50);
    let region = allocate(&mut allocator, &mut os, mb(1)).unwrap();
    let done = match allocator.shrink(region.addr, layout(mb(1)), layout(0)) {
        Step::Done(done) => done,
        Step::Pending(_) => panic!("nothing is to be asked for"),
    };
    assert_eq!(Ok(FatPtr { addr: 0, len: 0 }), done.result);
    os.munmap(done.retired.expect("the segment on huge pages"));
    let stats = allocator.stats().unwrap();
    assert_eq!(0, stats.remaps_failed);
    assert_eq!(1, stats.default_segments);
    assert!(os.mappings.is_empty());
}

#[test]
fn counters_only_grow() {
    let mut allocator = allocator_4k(50);
    let mut os = Os::new(1);

    let mut before = allocator.stats().unwrap();
    let mut live: Vec<(usize, usize)> = Vec::new();
    for i in 0..30 {
        let size = (i * 37 % 11) * mb(1) / 3 + 1;
        if i % 4 == 3 {
            let (addr, old) = live.remove(i % live.len());
            let region = if size >= old {
                grow(&mut allocator, &mut os, addr, old, size)
            } else {
                shrink(&mut allocator, &mut os, addr, old, size)
            }
            .unwrap();
            live.push((region.addr, size));
        } else if i % 7 == 6 {
            let (addr, old) = live.remove(0);
            deallocate(&mut allocator, &mut os, addr, old);
        } else {
            let region = allocate(&mut allocator, &mut os, size).unwrap();
            live.push((region.addr, size));
        }
        let stats = allocator.stats().unwrap();
        assert!(stats.missed_allocs >= before.missed_allocs);
        assert!(stats.missed_mb >= before.missed_mb);
        assert!(stats.remaps_failed >= before.remaps_failed);
        before = stats;
    }
    assert!(before.missed_allocs > 0);
}
