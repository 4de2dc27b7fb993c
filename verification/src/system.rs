//! The sizing policy of the page-granular allocator that backs all dynamic
//! memory: requests are rounded to whole zeroed pages, and when the managed
//! region is exhausted a growth mapping is sized from a standing candidate
//! or, for larger requests, to exactly fit the request plus bookkeeping.

use vstd::prelude::*;

verus! {

/// Number of bytes in one page of the kernel's virtual-memory mappings.
pub const PAGE_SIZE: usize = 4096;

/// Number of page records a default growth reserves: one per bit of a
/// machine word, enough bookkeeping to track further growth.
pub const GROWTH_RECORD_PAGES: usize = 64;

/// The standing growth candidate: the bytes a default growth maps.
pub const GROWTH_CANDIDATE_BYTES: usize = GROWTH_RECORD_PAGES * PAGE_SIZE;

/// Bytes of bookkeeping reserved alongside a request-sized growth: one more
/// page record.
pub const GROWTH_RECORD_BYTES: usize = 8;

/// Whole pages needed to cover `size` bytes.
pub open spec fn pages_needed(size: int) -> int {
    (size + PAGE_SIZE - 1) / PAGE_SIZE as int
}

/// How an allocation request is satisfied.
#[derive(Clone, Copy, Debug, PartialEq, Eq, Structural)]
pub enum AllocPlan {
    /// A zero-size request: a valid dangling, zero-length allocation, with
    /// no syscall made.
    Dangling,
    /// An alignment above one page: the request fails outright.
    Refused,
    /// A mapping request to the kernel for this many zeroed pages.
    Mapped { pages: usize },
}

/// The allocator backing the process: every request is served from whole
/// zeroed pages mapped by the kernel.
#[derive(Clone, Copy)]
pub struct CreateMappingAlloc;

impl CreateMappingAlloc {
    /// Decides how to satisfy an allocation request of `size` bytes at
    /// alignment `align`: zero bytes need no syscall, alignments above one
    /// page are refused, and anything else maps exactly the pages that
    /// cover the request.
    pub fn plan_allocation(&self, size: usize, align: usize) -> (p: AllocPlan)
        requires
            size <= usize::MAX - PAGE_SIZE,
        ensures
            size == 0 ==> p == AllocPlan::Dangling,
            size > 0 && align > PAGE_SIZE ==> p == AllocPlan::Refused,
            size > 0 && align <= PAGE_SIZE ==> (p matches AllocPlan::Mapped { pages }
                && pages as int == pages_needed(size as int) && pages >= 1 && pages * PAGE_SIZE
                >= size),
    {
        if size == 0 {
            AllocPlan::Dangling
        } else if align > PAGE_SIZE {
            AllocPlan::Refused
        } else {
            let pages = (size + (PAGE_SIZE - 1)) / PAGE_SIZE;
            proof {
                assert(pages * PAGE_SIZE >= size) by (nonlinear_arith)
                    requires
                        pages == (size + (PAGE_SIZE - 1)) / (PAGE_SIZE as int),
                        size > 0,
                        PAGE_SIZE == 4096,
                ;
                assert(pages >= 1) by (nonlinear_arith)
                    requires
                        pages == (size + (PAGE_SIZE - 1)) / (PAGE_SIZE as int),
                        size > 0,
                        PAGE_SIZE == 4096,
                ;
            }
            AllocPlan::Mapped { pages }
        }
    }

    /// Sizes the mapping requested when the managed region is exhausted by
    /// a request of `size` bytes at alignment `align`. The default growth
    /// is the standing candidate; a request larger than the candidate gets
    /// a growth sized to exactly cover it — page-aligned, plus bookkeeping
    /// for one more page record — never anything smaller. Returns the
    /// mapping's size and alignment in bytes.
    pub fn plan_growth(&self, size: usize, align: usize) -> (g: (usize, usize))
        requires
            1 <= align <= 0x4000_0000,
            size <= 0x4000_0000,
        ensures
            size <= GROWTH_CANDIDATE_BYTES ==> g == (GROWTH_CANDIDATE_BYTES, PAGE_SIZE),
            size > GROWTH_CANDIDATE_BYTES ==> ({
                let a = if align <= PAGE_SIZE {
                    PAGE_SIZE as int
                } else {
                    align as int
                };
                g.0 == ((size + 7) / 8 * 8 + GROWTH_RECORD_BYTES + a - 1) / a * a && g.1 == a
            }),
            g.0 >= size,
    {
        if size <= GROWTH_CANDIDATE_BYTES {
            (GROWTH_CANDIDATE_BYTES, PAGE_SIZE)
        } else {
            let a: usize = if align <= PAGE_SIZE {
                PAGE_SIZE
            } else {
                align
            };
            let padded = (size + 7) / 8 * 8 + GROWTH_RECORD_BYTES;
            let q = (padded + (a - 1)) / a;
            proof {
                assert((size + 7) / 8 * 8 >= size) by (nonlinear_arith)
                    requires
                        size >= 0,
                ;
                assert(q * a <= padded + a - 1 && q * a >= padded) by (nonlinear_arith)
                    requires
                        q == (padded + (a - 1)) / (a as int),
                        a >= 1,
                        padded >= 0,
                ;
            }
            let total = q * a;
            (total, a)
        }
    }

    /// Whole pages released when a region of `size` bytes is handed back;
    /// partial pages are never returned.
    pub fn plan_deallocation(&self, size: usize) -> (pages: usize)
        requires
            size <= usize::MAX - PAGE_SIZE,
        ensures
            pages as int == pages_needed(size as int),
    {
        (size + (PAGE_SIZE - 1)) / PAGE_SIZE
    }
}

} // verus!
