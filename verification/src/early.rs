//! The allocator itself: five machine words over the model in `arena`.

use vstd::prelude::*;
use vstd::arithmetic::power2::is_pow2;
use crate::align::{checked_align_up, is_power_of_two, lemma_align_up_bounds};
use crate::arena::{lift, Arena};
use crate::error::AllocError;

verus! {

/// Early memory allocator, for use before the real byte and page allocators
/// can work.
///
/// It manages one range that is allocated from both ends: bytes forward from
/// the start, pages backward from the end.
///
/// ```text
/// [ bytes-used | avail-area | pages-used ]
/// |            | -->    <-- |            |
/// start       b_pos        p_pos       end
/// ```
///
/// For the byte area a counter records the number of live allocations; when
/// it goes down to zero the whole byte area is free again. The page area is
/// never freed.
pub struct EarlyAllocator<const PAGE_SIZE: usize> {
    start: usize,
    end: usize,
    count: usize,
    byte_pos: usize,
    page_pos: usize,
}

impl<const PAGE_SIZE: usize> View for EarlyAllocator<PAGE_SIZE> {
    type V = Arena;

    closed spec fn view(&self) -> Arena {
        Arena {
            start: self.start as nat,
            end: self.end as nat,
            byte_pos: self.byte_pos as nat,
            page_pos: self.page_pos as nat,
            live: self.count as nat,
            page_size: PAGE_SIZE as nat,
        }
    }
}

impl<const PAGE_SIZE: usize> EarlyAllocator<PAGE_SIZE> {
    #[verifier::type_invariant]
    spec fn wf(self) -> bool {
        self@.inv()
    }

    /// An allocator over the empty range at address zero: nothing can be
    /// allocated from it until `init` gives it a range.
    pub fn new() -> (a: Self)
        ensures
            a@ == Arena::fresh(0, 0, PAGE_SIZE as nat),
            a@.inv(),
    {
        proof {
            Arena::lemma_fresh_inv(0, 0, PAGE_SIZE as nat);
        }
        Self { start: 0, end: 0, count: 0, byte_pos: 0, page_pos: 0 }
    }

    /// Takes over the range `[start, start + size)`, forgetting whatever was
    /// managed before.
    pub fn init(&mut self, start: usize, size: usize)
        requires
            start + size <= usize::MAX,
        ensures
            final(self)@ == Arena::fresh(start as nat, size as nat, PAGE_SIZE as nat),
            final(self)@.inv(),
    {
        proof {
            Arena::lemma_fresh_inv(start as nat, size as nat, PAGE_SIZE as nat);
        }
        *self = Self { start, end: start + size, count: 0, byte_pos: start, page_pos: start + size };
    }

    /// Allocates `size` bytes at an address that is a multiple of `align`.
    ///
    /// The block starts at the byte cursor rounded up to `align`. The request
    /// fails with `InvalidParam` when `align` is not a power of two, with
    /// `NoMemory` when the block would pass the page cursor, and with
    /// `InvalidParam` when the block would start at address zero. A failed
    /// request changes nothing.
    ///
    /// The counter of live allocations must have room for one more.
    pub fn alloc_bytes(&mut self, size: usize, align: usize) -> (res: Result<usize, AllocError>)
        requires
            old(self)@.live < usize::MAX,
        ensures
            lift(res) == old(self)@.alloc_result(size as nat, align as nat),
            final(self)@ == old(self)@.after_alloc(size as nat, align as nat),
            final(self)@.inv(),
            res matches Ok(addr) ==> {
                &&& align > 0
                &&& addr as nat % align as nat == 0
                &&& old(self)@.byte_pos <= addr < old(self)@.byte_pos + align
                &&& addr + size == final(self)@.byte_pos
                &&& addr + size <= old(self)@.page_pos
            },
            old(self)@.balanced() ==> (final(self)@.balanced() <==> !old(self)@.empty_at_start(
                size as nat,
                align as nat,
            )),
    {
        proof {
            use_type_invariant(&*self);
            self@.lemma_alloc_inv(size as nat, align as nat);
            if self@.balanced() {
                self@.lemma_alloc_balanced(size as nat, align as nat);
            }
        }
        if !is_power_of_two(align) {
            return Err(AllocError::InvalidParam);
        }
        proof {
            assert(align > 0) by {
                reveal(is_pow2);
            }
            lemma_align_up_bounds(self.byte_pos as nat, align as nat);
        }
        let start: usize = match checked_align_up(self.byte_pos, align) {
            Some(aligned) => aligned,
            None => {
                return Err(AllocError::NoMemory);
            },
        };
        let end: usize = match start.checked_add(size) {
            Some(sum) => sum,
            None => {
                return Err(AllocError::NoMemory);
            },
        };
        if end > self.page_pos {
            return Err(AllocError::NoMemory);
        }
        if start == 0 {
            return Err(AllocError::InvalidParam);
        }
        self.count = self.count + 1;
        self.byte_pos = end;
        Ok(start)
    }

    /// Gives one byte allocation back.
    ///
    /// Neither the address nor the layout is looked at: the allocator only
    /// counts. With no allocation live the call does nothing; when the last
    /// live allocation is given back the whole byte area is free again.
    pub fn dealloc(&mut self, _pos: usize, _size: usize, _align: usize)
        ensures
            final(self)@ == old(self)@.after_dealloc(),
            final(self)@.inv(),
            old(self)@.balanced() ==> final(self)@.balanced(),
    {
        proof {
            use_type_invariant(&*self);
        }
        if self.count == 0 {
            return ;
        }
        if self.count == 1 {
            self.byte_pos = self.start;
        }
        self.count = self.count - 1;
    }

    /// Number of byte allocations that have not been given back.
    pub fn live_allocations(&self) -> (n: usize)
        ensures
            n == self@.live,
            self@.inv(),
    {
        proof {
            use_type_invariant(self);
        }
        self.count
    }

    /// Size of the managed range in bytes.
    pub fn total_bytes(&self) -> (n: usize)
        ensures
            n == self@.total_bytes(),
            self@.inv(),
    {
        proof {
            use_type_invariant(self);
        }
        self.end - self.start
    }

    /// Number of bytes between the start of the range and the byte cursor.
    pub fn used_bytes(&self) -> (n: usize)
        ensures
            n == self@.used_bytes(),
            self@.inv(),
    {
        proof {
            use_type_invariant(self);
        }
        self.byte_pos - self.start
    }

    /// Number of bytes between the two cursors.
    pub fn available_bytes(&self) -> (n: usize)
        ensures
            n == self@.available_bytes(),
            self@.inv(),
    {
        proof {
            use_type_invariant(self);
        }
        self.page_pos - self.byte_pos
    }

    /// Allocates `num_pages` contiguous pages and returns the address of the
    /// first.
    ///
    /// The block ends at the page cursor. The request fails with `NoMemory`
    /// when the block would start below the byte cursor, and then changes
    /// nothing. The alignment argument is not looked at: blocks are aligned to
    /// the page size relative to the end of the range, and to nothing more.
    pub fn alloc_pages(&mut self, num_pages: usize, _align_pow2: usize) -> (res: Result<
        usize,
        AllocError,
    >)
        ensures
            lift(res) == old(self)@.alloc_pages_result(num_pages as nat),
            final(self)@ == old(self)@.after_alloc_pages(num_pages as nat),
            final(self)@.inv(),
            res matches Ok(addr) ==> {
                &&& addr == final(self)@.page_pos
                &&& addr + num_pages * PAGE_SIZE == old(self)@.page_pos
                &&& old(self)@.byte_pos <= addr
            },
            final(self)@.balanced() == old(self)@.balanced(),
    {
        proof {
            use_type_invariant(&*self);
            self@.lemma_alloc_pages_inv(num_pages as nat);
        }
        let bytes: usize = match num_pages.checked_mul(PAGE_SIZE) {
            Some(product) => product,
            None => {
                return Err(AllocError::NoMemory);
            },
        };
        if bytes > self.page_pos - self.byte_pos {
            return Err(AllocError::NoMemory);
        }
        let start: usize = self.page_pos - bytes;
        self.page_pos = start;
        Ok(start)
    }

    /// Number of whole pages that fit into the managed range.
    pub fn total_pages(&self) -> (n: usize)
        requires
            PAGE_SIZE > 0,
        ensures
            n == self@.total_pages(),
            self@.inv(),
    {
        proof {
            use_type_invariant(self);
        }
        (self.end - self.start) / PAGE_SIZE
    }

    /// Number of pages handed out.
    pub fn used_pages(&self) -> (n: usize)
        requires
            PAGE_SIZE > 0,
        ensures
            n == self@.used_pages(),
            n * PAGE_SIZE == self@.page_bytes(),
            self@.inv(),
    {
        proof {
            use_type_invariant(self);
            self@.lemma_used_pages_exact();
        }
        (self.end - self.page_pos) / PAGE_SIZE
    }

    /// The number of bytes between the two cursors, multiplied by the page
    /// size.
    ///
    /// Mind the unit: this is not the number of pages that can still be
    /// allocated, which is `available_bytes() / PAGE_SIZE`.
    pub fn available_pages(&self) -> (n: usize)
        requires
            self@.available_pages() <= usize::MAX,
        ensures
            n == self@.available_pages(),
            self@.inv(),
    {
        proof {
            use_type_invariant(self);
        }
        (self.page_pos - self.byte_pos) * PAGE_SIZE
    }
}

} // verus!
