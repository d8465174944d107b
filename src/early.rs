use crate::region::{
    is_power_of_two, lemma_count_fits, lemma_power_of_two_positive, Op, RegionView,
};
use vstd::prelude::*;

verus! {

/// Why a request was refused.
#[derive(Clone, Copy, Debug, PartialEq, Eq, Structural)]
pub enum AllocError {
    /// The two cursors would cross.
    NoMemory,
    /// A release was asked for more than is live.
    NotAllocated,
    /// The region cannot grow.
    Unsupported,
}

/// Early memory allocator, to be used before the general byte and page
/// allocators can work. `PAGE_SIZE` is the page granularity, a power of two.
pub struct EarlyAllocator<const PAGE_SIZE: usize> {
    start: usize,
    byte_pos: usize,
    end: usize,
    page_pos: usize,
    count: usize,
    count_page: usize,
}

impl<const PAGE_SIZE: usize> View for EarlyAllocator<PAGE_SIZE> {
    type V = RegionView;

    closed spec fn view(&self) -> RegionView {
        RegionView {
            start: self.start as nat,
            end: self.end as nat,
            byte_pos: self.byte_pos as nat,
            page_pos: self.page_pos as nat,
            byte_count: self.count as nat,
            page_count: self.count_page as nat,
        }
    }
}

impl<const PAGE_SIZE: usize> EarlyAllocator<PAGE_SIZE> {
    pub open spec fn wf(&self) -> bool {
        self@.wf(PAGE_SIZE as nat)
    }

    /// An inert allocator that holds no memory yet.
    pub fn new() -> (r: Self)
        ensures
            r@ == RegionView::zeroed(),
    {
        EarlyAllocator { start: 0, byte_pos: 0, end: 0, page_pos: 0, count: 0, count_page: 0 }
    }

    /// The page granularity.
    pub fn page_size() -> (r: usize)
        ensures
            r == PAGE_SIZE,
    {
        PAGE_SIZE
    }

    /// Hands the region `[start, start + size)` over to the allocator, with
    /// both cursors at home and nothing live.
    pub fn init(&mut self, start: usize, size: usize)
        requires
            is_power_of_two(PAGE_SIZE as nat),
            start + size <= usize::MAX,
        ensures
            final(self)@ == RegionView::inited(start as nat, size as nat),
            final(self).wf(),
    {
        let end = start + size;
        *self = EarlyAllocator {
            start,
            byte_pos: start,
            end,
            page_pos: end,
            count: 0,
            count_page: 0,
        };
    }

    /// Growing the region is not supported: always refused, and nothing
    /// changes.
    pub fn add_memory(&mut self, start: usize, size: usize) -> (r: Result<(), AllocError>)
        ensures
            r == Err::<(), AllocError>(AllocError::Unsupported),
            final(self)@ == old(self)@,
    {
        Err(AllocError::Unsupported)
    }

    /// Allocates `size` bytes at the forward cursor and returns their address.
    /// The alignment is not applied: allocations are placed at the cursor.
    pub fn alloc_bytes(&mut self, size: usize, align: usize) -> (r: Result<usize, AllocError>)
        requires
            old(self).wf(),
        ensures
            final(self).wf(),
            final(self)@ == old(self)@.step(Op::AllocBytes(size as nat), PAGE_SIZE as nat),
            old(self)@.can_alloc_bytes(size as nat) ==> r == Ok::<usize, AllocError>(
                old(self)@.byte_pos as usize,
            ),
            !old(self)@.can_alloc_bytes(size as nat) ==> r == Err::<usize, AllocError>(
                AllocError::NoMemory,
            ),
    {
        if size > self.page_pos - self.byte_pos || self.count == usize::MAX {
            return Err(AllocError::NoMemory);
        }
        let addr = self.byte_pos;
        self.byte_pos = self.byte_pos + size;
        self.count = self.count + 1;
        Ok(addr)
    }

    /// Releases one byte allocation. When none stays live the whole forward
    /// area is reclaimed; single ranges never are. Releasing when nothing is
    /// live is refused with `NotAllocated`.
    pub fn dealloc_bytes(&mut self, pos: usize, size: usize) -> (r: Result<(), AllocError>)
        requires
            old(self).wf(),
        ensures
            final(self).wf(),
            final(self)@ == old(self)@.step(Op::FreeBytes, PAGE_SIZE as nat),
            old(self)@.can_free_bytes() ==> r == Ok::<(), AllocError>(()),
            !old(self)@.can_free_bytes() ==> r == Err::<(), AllocError>(AllocError::NotAllocated),
    {
        if self.count == 0 {
            return Err(AllocError::NotAllocated);
        }
        self.count = self.count - 1;
        if self.count == 0 {
            self.byte_pos = self.start;
        }
        Ok(())
    }

    /// Bytes between the start of the region and the page cursor.
    pub fn total_bytes(&self) -> (r: usize)
        requires
            self.wf(),
        ensures
            r == self@.total_bytes(),
    {
        self.page_pos - self.start
    }

    /// Bytes taken by the forward area.
    pub fn used_bytes(&self) -> (r: usize)
        requires
            self.wf(),
        ensures
            r == self@.used_bytes(),
    {
        self.byte_pos - self.start
    }

    /// Bytes free between the two cursors.
    pub fn available_bytes(&self) -> (r: usize)
        requires
            self.wf(),
        ensures
            r == self@.available_bytes(),
    {
        self.page_pos - self.byte_pos
    }

    /// Allocates `num_pages` pages below the page cursor and returns the
    /// address of the first, the new page cursor. The alignment is not
    /// applied beyond the page granularity.
    pub fn alloc_pages(&mut self, num_pages: usize, align_pow2: usize) -> (r: Result<
        usize,
        AllocError,
    >)
        requires
            old(self).wf(),
        ensures
            final(self).wf(),
            final(self)@ == old(self)@.step(Op::AllocPages(num_pages as nat), PAGE_SIZE as nat),
            old(self)@.can_alloc_pages(num_pages as nat, PAGE_SIZE as nat) ==> r == Ok::<
                usize,
                AllocError,
            >(final(self)@.page_pos as usize),
            !old(self)@.can_alloc_pages(num_pages as nat, PAGE_SIZE as nat) ==> r == Err::<
                usize,
                AllocError,
            >(AllocError::NoMemory),
    {
        proof {
            lemma_power_of_two_positive(PAGE_SIZE as nat);
            lemma_count_fits(
                num_pages as nat,
                (self.page_pos - self.byte_pos) as nat,
                PAGE_SIZE as nat,
            );
        }
        if num_pages > (self.page_pos - self.byte_pos) / PAGE_SIZE {
            return Err(AllocError::NoMemory);
        }
        let bytes = num_pages * PAGE_SIZE;
        proof {
            assert(self.count_page + num_pages <= (self.count_page + num_pages) * PAGE_SIZE)
                by (nonlinear_arith)
                requires
                    PAGE_SIZE > 0,
            ;
            assert((self.count_page + num_pages) * PAGE_SIZE == self.count_page * PAGE_SIZE
                + num_pages * PAGE_SIZE) by (nonlinear_arith);
        }
        self.page_pos = self.page_pos - bytes;
        self.count_page = self.count_page + num_pages;
        Ok(self.page_pos)
    }

    /// Releases `num_pages` pages. The page area is given back only when no
    /// page stays live; pages are never reclaimed one by one. Releasing more
    /// than is live is refused with `NotAllocated`.
    pub fn dealloc_pages(&mut self, pos: usize, num_pages: usize) -> (r: Result<(), AllocError>)
        requires
            old(self).wf(),
        ensures
            final(self).wf(),
            final(self)@ == old(self)@.step(Op::FreePages(num_pages as nat), PAGE_SIZE as nat),
            old(self)@.can_free_pages(num_pages as nat) ==> r == Ok::<(), AllocError>(()),
            !old(self)@.can_free_pages(num_pages as nat) ==> r == Err::<(), AllocError>(
                AllocError::NotAllocated,
            ),
    {
        if num_pages > self.count_page {
            return Err(AllocError::NotAllocated);
        }
        proof {
            assert((self.count_page - num_pages) * PAGE_SIZE <= self.count_page * PAGE_SIZE)
                by (nonlinear_arith)
                requires
                    num_pages <= self.count_page,
            ;
        }
        self.count_page = self.count_page - num_pages;
        if self.count_page == 0 {
            self.page_pos = self.end;
        }
        Ok(())
    }

    /// Whole pages between the forward cursor and the end of the region.
    pub fn total_pages(&self) -> (r: usize)
        requires
            self.wf(),
        ensures
            r == self@.total_pages(PAGE_SIZE as nat),
    {
        proof {
            lemma_power_of_two_positive(PAGE_SIZE as nat);
        }
        (self.end - self.byte_pos) / PAGE_SIZE
    }

    /// Whole pages taken by the page area.
    pub fn used_pages(&self) -> (r: usize)
        requires
            self.wf(),
        ensures
            r == self@.used_pages(PAGE_SIZE as nat),
    {
        proof {
            lemma_power_of_two_positive(PAGE_SIZE as nat);
        }
        (self.end - self.page_pos) / PAGE_SIZE
    }

    /// Whole pages free between the two cursors.
    pub fn available_pages(&self) -> (r: usize)
        requires
            self.wf(),
        ensures
            r == self@.available_pages(PAGE_SIZE as nat),
    {
        proof {
            lemma_power_of_two_positive(PAGE_SIZE as nat);
        }
        (self.page_pos - self.byte_pos) / PAGE_SIZE
    }
}

} // verus!
