//! The mathematical model of the allocator: one address range, two cursors
//! and a counter, with every operation as a function from state to state.

use vstd::prelude::*;
use vstd::arithmetic::power2::is_pow2;
use crate::align::{align_up, lemma_align_up_bounds};
use crate::error::AllocError;

verus! {

/// The state of the allocator as plain numbers.
///
/// ```text
/// [ bytes in use | free | pages handed out ]
/// start       byte_pos  page_pos          end
/// ```
pub struct Arena {
    /// Lower bound of the managed range.
    pub start: nat,
    /// Upper bound of the managed range (exclusive).
    pub end: nat,
    /// Next free position for byte allocations; grows upward.
    pub byte_pos: nat,
    /// Lowest address handed out as pages; grows downward.
    pub page_pos: nat,
    /// Number of byte allocations that have not been freed yet.
    pub live: nat,
    /// Size of one page in bytes.
    pub page_size: nat,
}

/// Reads the address in an allocation result as a natural number.
pub open spec fn lift(res: Result<usize, AllocError>) -> Result<nat, AllocError> {
    match res {
        Ok(addr) => Ok(addr as nat),
        Err(e) => Err(e),
    }
}

impl Arena {
    /// The state right after initialization with the range `[start, start + size)`.
    pub open spec fn fresh(start: nat, size: nat, page_size: nat) -> Arena {
        Arena { start, end: start + size, byte_pos: start, page_pos: start + size, live: 0, page_size }
    }

    /// The distance between the page cursor and the end of the range is a
    /// whole number of pages.
    pub open spec fn pages_whole(self) -> bool {
        if self.page_size == 0 {
            self.page_pos == self.end
        } else {
            (self.end - self.page_pos) % (self.page_size as int) == 0
        }
    }

    /// What holds of every state that the operations can reach: the cursors
    /// are ordered and inside the range, the byte region is empty whenever no
    /// byte allocation is live, and only whole pages have been handed out.
    pub open spec fn inv(self) -> bool {
        &&& self.start <= self.byte_pos <= self.page_pos <= self.end
        &&& self.live == 0 ==> self.byte_pos == self.start
        &&& self.pages_whole()
    }

    /// The counter and the byte cursor agree in both directions: no byte
    /// allocation is live exactly when the byte region is empty.
    pub open spec fn balanced(self) -> bool {
        self.live == 0 <==> self.byte_pos == self.start
    }

    /// Size of the managed range in bytes.
    pub open spec fn total_bytes(self) -> int {
        self.end - self.start
    }

    /// Size of the byte region in bytes.
    pub open spec fn used_bytes(self) -> int {
        self.byte_pos - self.start
    }

    /// Size of the gap between the two cursors in bytes.
    pub open spec fn available_bytes(self) -> int {
        self.page_pos - self.byte_pos
    }

    /// Size of the page region in bytes.
    pub open spec fn page_bytes(self) -> int {
        self.end - self.page_pos
    }

    /// Number of whole pages that fit into the managed range.
    pub open spec fn total_pages(self) -> int {
        self.total_bytes() / (self.page_size as int)
    }

    /// Number of pages handed out.
    pub open spec fn used_pages(self) -> int {
        self.page_bytes() / (self.page_size as int)
    }

    /// The gap between the cursors scaled by the page size.
    ///
    /// This is a product, not a quotient: the number of whole pages that are
    /// still free is `available_bytes() / page_size`.
    pub open spec fn available_pages(self) -> int {
        self.available_bytes() * self.page_size
    }

    /// What a byte allocation of `size` bytes at alignment `align` answers.
    ///
    /// The alignment is checked first, then the fit between the cursors, then
    /// the address itself, which must not be zero.
    pub open spec fn alloc_result(self, size: nat, align: nat) -> Result<nat, AllocError> {
        let addr = align_up(self.byte_pos, align);
        if !is_pow2(align as int) {
            Err(AllocError::InvalidParam)
        } else if addr + size > self.page_pos {
            Err(AllocError::NoMemory)
        } else if addr == 0 {
            Err(AllocError::InvalidParam)
        } else {
            Ok(addr)
        }
    }

    /// The state after a byte allocation: on success the byte cursor stands
    /// behind the new block and one more allocation is live; on failure
    /// nothing has changed.
    pub open spec fn after_alloc(self, size: nat, align: nat) -> Arena {
        match self.alloc_result(size, align) {
            Ok(addr) => Arena { byte_pos: addr + size, live: self.live + 1, ..self },
            Err(_) => self,
        }
    }

    /// Whether a byte allocation hands out an empty block at the very start of
    /// the range.
    pub open spec fn empty_at_start(self, size: nat, align: nat) -> bool {
        size == 0 && self.alloc_result(size, align) == Ok::<nat, AllocError>(self.start)
    }

    /// Whether freeing one byte allocation empties the byte region.
    pub open spec fn reclaims(self) -> bool {
        self.live == 1
    }

    /// The state after freeing one byte allocation: the counter goes down
    /// unless it is zero already, and when it reaches zero the whole byte
    /// region is free again.
    pub open spec fn after_dealloc(self) -> Arena {
        if self.live == 0 {
            self
        } else if self.live == 1 {
            Arena { live: 0, byte_pos: self.start, ..self }
        } else {
            Arena { live: (self.live - 1) as nat, ..self }
        }
    }

    /// What a page allocation of `count` pages answers.
    pub open spec fn alloc_pages_result(self, count: nat) -> Result<nat, AllocError> {
        if count * self.page_size > self.page_pos - self.byte_pos {
            Err(AllocError::NoMemory)
        } else {
            Ok((self.page_pos - count * self.page_size) as nat)
        }
    }

    /// The state after a page allocation: on success the page cursor stands
    /// at the new block; on failure nothing has changed.
    pub open spec fn after_alloc_pages(self, count: nat) -> Arena {
        match self.alloc_pages_result(count) {
            Ok(addr) => Arena { page_pos: addr, ..self },
            Err(_) => self,
        }
    }

    /// A freshly initialized range satisfies the invariant, with the counter
    /// and the byte cursor in agreement.
    pub proof fn lemma_fresh_inv(start: nat, size: nat, page_size: nat)
        ensures
            Arena::fresh(start, size, page_size).inv(),
            Arena::fresh(start, size, page_size).balanced(),
    {
        if page_size > 0 {
            vstd::arithmetic::div_mod::lemma_small_mod(0, page_size);
        }
    }

    /// A byte allocation keeps the invariant and leaves the range, the page
    /// size and the page cursor alone. A successful one returns a block of
    /// `size` bytes that is aligned, starts at or behind the old byte cursor
    /// with less than one alignment step of padding, and ends at the new byte
    /// cursor, which does not pass the page cursor.
    pub proof fn lemma_alloc_inv(self, size: nat, align: nat)
        requires
            self.inv(),
        ensures
            self.after_alloc(size, align).inv(),
            self.after_alloc(size, align).start == self.start,
            self.after_alloc(size, align).end == self.end,
            self.after_alloc(size, align).page_pos == self.page_pos,
            self.after_alloc(size, align).page_size == self.page_size,
            self.after_alloc(size, align).byte_pos >= self.byte_pos,
            self.alloc_result(size, align) matches Ok(addr) ==> {
                &&& align > 0
                &&& addr % align == 0
                &&& self.byte_pos <= addr < self.byte_pos + align
                &&& addr + size == self.after_alloc(size, align).byte_pos
                &&& addr + size <= self.page_pos
            },
    {
        if align > 0 {
            lemma_align_up_bounds(self.byte_pos, align);
        } else {
            reveal(is_pow2);
        }
    }

    /// Freeing keeps the invariant and leaves the range, the page size and
    /// the page cursor alone.
    pub proof fn lemma_dealloc_inv(self)
        requires
            self.inv(),
        ensures
            self.after_dealloc().inv(),
            self.after_dealloc().start == self.start,
            self.after_dealloc().end == self.end,
            self.after_dealloc().page_pos == self.page_pos,
            self.after_dealloc().page_size == self.page_size,
            !self.reclaims() ==> self.after_dealloc().byte_pos == self.byte_pos,
    {
    }

    /// A page allocation keeps the invariant and leaves the range, the page
    /// size, the byte cursor and the counter alone. A successful one returns
    /// the new page cursor: the block of `count` pages that ends at the old
    /// page cursor, and does not start below the byte cursor.
    pub proof fn lemma_alloc_pages_inv(self, count: nat)
        requires
            self.inv(),
        ensures
            self.after_alloc_pages(count).inv(),
            self.after_alloc_pages(count).start == self.start,
            self.after_alloc_pages(count).end == self.end,
            self.after_alloc_pages(count).byte_pos == self.byte_pos,
            self.after_alloc_pages(count).live == self.live,
            self.after_alloc_pages(count).page_size == self.page_size,
            self.after_alloc_pages(count).page_pos <= self.page_pos,
            self.alloc_pages_result(count) matches Ok(addr) ==> {
                &&& addr == self.after_alloc_pages(count).page_pos
                &&& addr + count * self.page_size == self.page_pos
                &&& self.byte_pos <= addr
            },
    {
        let bytes = count * self.page_size;
        if bytes <= self.page_pos - self.byte_pos && self.page_size > 0 {
            vstd::arithmetic::div_mod::lemma_mod_multiples_vanish(
                count as int,
                self.end - self.page_pos,
                self.page_size as int,
            );
            assert(self.page_size * count == count * self.page_size) by (nonlinear_arith);
        }
        if self.page_size == 0 {
            assert(count * self.page_size == 0) by (nonlinear_arith)
                requires
                    self.page_size == 0,
            ;
        }
    }

    /// The three regions make up the whole range.
    pub proof fn lemma_regions_add_up(self)
        requires
            self.inv(),
        ensures
            self.used_bytes() + self.available_bytes() + self.page_bytes() == self.total_bytes(),
            0 <= self.used_bytes() <= self.total_bytes(),
            0 <= self.available_bytes() <= self.total_bytes(),
            0 <= self.page_bytes() <= self.total_bytes(),
    {
    }

    /// The page region holds exactly `used_pages()` pages, and no more pages
    /// have been handed out than fit into the range.
    pub proof fn lemma_used_pages_exact(self)
        requires
            self.inv(),
            self.page_size > 0,
        ensures
            self.used_pages() * self.page_size == self.page_bytes(),
            0 <= self.used_pages() <= self.total_pages(),
    {
        let p = self.page_size as int;
        vstd::arithmetic::div_mod::lemma_fundamental_div_mod(self.page_bytes(), p);
        assert(self.used_pages() * p == p * self.used_pages()) by (nonlinear_arith);
        vstd::arithmetic::div_mod::lemma_div_is_ordered(self.page_bytes(), self.total_bytes(), p);
        vstd::arithmetic::div_mod::lemma_div_pos_is_pos(self.page_bytes(), p);
    }

    /// Freeing with the counter and the byte cursor in agreement leaves them
    /// in agreement.
    pub proof fn lemma_dealloc_balanced(self)
        requires
            self.inv(),
            self.balanced(),
        ensures
            self.after_dealloc().balanced(),
    {
    }

    /// A byte allocation leaves the counter and the byte cursor in agreement,
    /// with one exception: an empty block handed out at the very start of the
    /// range counts as live and takes up nothing.
    pub proof fn lemma_alloc_balanced(self, size: nat, align: nat)
        requires
            self.inv(),
            self.balanced(),
        ensures
            self.after_alloc(size, align).balanced() <==> !self.empty_at_start(size, align),
    {
        self.lemma_alloc_inv(size, align);
    }

    /// A page allocation leaves the counter and the byte cursor in agreement.
    pub proof fn lemma_alloc_pages_balanced(self, count: nat)
        requires
            self.inv(),
            self.balanced(),
        ensures
            self.after_alloc_pages(count).balanced(),
    {
        self.lemma_alloc_pages_inv(count);
    }

    /// Once nothing is live, freeing changes nothing.
    pub proof fn lemma_dealloc_at_zero(self)
        requires
            self.live == 0,
        ensures
            self.after_dealloc() == self,
    {
    }
}

} // verus!
