//! Call sequences: what holds of the allocator from initialization on,
//! whatever is asked of it and in whatever order.

use vstd::prelude::*;
use crate::arena::Arena;

verus! {

/// One request to an initialized allocator.
pub enum Call {
    /// Allocate `size` bytes at alignment `align`.
    AllocBytes { size: nat, align: nat },
    /// Give one byte allocation back.
    Dealloc,
    /// Allocate `count` pages.
    AllocPages { count: nat },
}

/// The addresses from `lo` up to, but not including, `hi`.
pub struct Block {
    pub lo: nat,
    pub hi: nat,
}

impl Block {
    /// The two blocks have no address in common.
    pub open spec fn disjoint(self, other: Block) -> bool {
        self.hi <= other.lo || other.hi <= self.lo || self.lo >= self.hi || other.lo >= other.hi
    }

    /// Every address of the block lies in `[lo, hi)`.
    pub open spec fn within(self, lo: nat, hi: nat) -> bool {
        lo <= self.lo && self.lo <= self.hi && self.hi <= hi
    }
}

/// `n` requests to give a byte allocation back.
pub open spec fn frees(n: nat) -> Seq<Call> {
    Seq::new(n, |i: int| Call::Dealloc)
}

impl Arena {
    /// The state after one request.
    pub open spec fn step(self, call: Call) -> Arena {
        match call {
            Call::AllocBytes { size, align } => self.after_alloc(size, align),
            Call::Dealloc => self.after_dealloc(),
            Call::AllocPages { count } => self.after_alloc_pages(count),
        }
    }

    /// The block that one request hands out, if it hands out any.
    pub open spec fn grant(self, call: Call) -> Option<Block> {
        match call {
            Call::AllocBytes { size, align } => match self.alloc_result(size, align) {
                Ok(addr) => Some(Block { lo: addr, hi: addr + size }),
                Err(_) => None,
            },
            Call::Dealloc => None,
            Call::AllocPages { count } => match self.alloc_pages_result(count) {
                Ok(addr) => Some(Block { lo: addr, hi: addr + count * self.page_size }),
                Err(_) => None,
            },
        }
    }

    /// The state after a sequence of requests, served in order.
    pub open spec fn run(self, calls: Seq<Call>) -> Arena
        decreases calls.len(),
    {
        if calls.len() == 0 {
            self
        } else {
            self.run(calls.drop_last()).step(calls.last())
        }
    }

    /// The state in which request number `k` of the sequence is served.
    pub open spec fn before(self, calls: Seq<Call>, k: int) -> Arena {
        self.run(calls.take(k))
    }

    /// The block that request number `k` of the sequence hands out.
    pub open spec fn granted_at(self, calls: Seq<Call>, k: int) -> Option<Block> {
        self.before(calls, k).grant(calls[k])
    }

    /// Request number `k` of the sequence gives the last live byte
    /// allocation back, and so frees the whole byte region.
    pub open spec fn reclaims_at(self, calls: Seq<Call>, k: int) -> bool {
        calls[k] is Dealloc && self.before(calls, k).reclaims()
    }

    /// One request keeps the invariant, leaves the range and the page size
    /// alone and never moves the page cursor up. Unless it frees the whole
    /// byte region, it never moves the byte cursor down. A block that it
    /// hands out lies between the cursors of the state it was asked in.
    pub proof fn lemma_step_inv(self, call: Call)
        requires
            self.inv(),
        ensures
            self.step(call).inv(),
            self.step(call).start == self.start,
            self.step(call).end == self.end,
            self.step(call).page_size == self.page_size,
            self.step(call).page_pos <= self.page_pos,
            !(call is Dealloc && self.reclaims()) ==> self.step(call).byte_pos >= self.byte_pos,
            self.grant(call) matches Some(block) ==> block.within(self.byte_pos, self.page_pos),
            self.grant(call) matches Some(block) ==> (call is AllocBytes ==> block.hi
                == self.step(call).byte_pos),
            self.grant(call) matches Some(block) ==> (call is AllocPages ==> block.lo
                == self.step(call).page_pos),
    {
        match call {
            Call::AllocBytes { size, align } => {
                self.lemma_alloc_inv(size, align);
            },
            Call::Dealloc => {
                self.lemma_dealloc_inv();
            },
            Call::AllocPages { count } => {
                self.lemma_alloc_pages_inv(count);
            },
        }
    }

    /// Serving one more request is one more step.
    pub proof fn lemma_run_unfold(self, calls: Seq<Call>, k: int)
        requires
            0 <= k < calls.len(),
        ensures
            self.before(calls, k + 1) == self.before(calls, k).step(calls[k]),
    {
        assert(calls.take(k + 1).drop_last() =~= calls.take(k));
    }

    /// Whatever is asked and in whatever order, the invariant holds after
    /// every request: the cursors stay ordered and inside the range, which
    /// itself never changes.
    pub proof fn lemma_run_inv(self, calls: Seq<Call>)
        requires
            self.inv(),
        ensures
            self.run(calls).inv(),
            self.run(calls).start == self.start,
            self.run(calls).end == self.end,
            self.run(calls).page_size == self.page_size,
            self.run(calls).page_pos <= self.page_pos,
        decreases calls.len(),
    {
        if calls.len() > 0 {
            self.lemma_run_inv(calls.drop_last());
            self.run(calls.drop_last()).lemma_step_inv(calls.last());
        }
    }

    /// Request number `k` of the sequence is a byte allocation that hands
    /// out an empty block at the very start of the range.
    pub open spec fn empty_at_start_at(self, calls: Seq<Call>, k: int) -> bool {
        calls[k] matches Call::AllocBytes { size, align } && self.before(calls, k).empty_at_start(
            size,
            align,
        )
    }

    /// As long as no empty block is handed out at the very start of the
    /// range, the counter is zero exactly when the byte cursor stands there.
    pub proof fn lemma_run_balanced(self, calls: Seq<Call>)
        requires
            self.inv(),
            self.balanced(),
            forall|k: int| 0 <= k < calls.len() ==> !self.empty_at_start_at(calls, k),
        ensures
            self.run(calls).balanced(),
        decreases calls.len(),
    {
        if calls.len() > 0 {
            let front = calls.drop_last();
            let last = calls.len() - 1;
            assert forall|k: int| 0 <= k < front.len() implies !self.empty_at_start_at(
                front,
                k,
            ) by {
                assert(front.take(k) =~= calls.take(k));
                assert(!self.empty_at_start_at(calls, k));
            }
            self.lemma_run_balanced(front);
            self.lemma_run_inv(front);
            assert(calls.take(last) =~= front);
            assert(!self.empty_at_start_at(calls, last));
            let s = self.run(front);
            match calls[last] {
                Call::AllocBytes { size, align } => {
                    s.lemma_alloc_balanced(size, align);
                },
                Call::Dealloc => {
                    s.lemma_dealloc_balanced();
                },
                Call::AllocPages { count } => {
                    s.lemma_alloc_pages_balanced(count);
                },
            }
        }
    }

    /// Freeing `n` times in a row takes the counter down by `n`, but never
    /// below zero; once it is zero the byte cursor stands at the start of the
    /// range and stays there, and further frees change nothing.
    pub proof fn lemma_repeated_dealloc(self, n: nat)
        requires
            self.inv(),
        ensures
            self.run(frees(n)).live == if n >= self.live {
                0
            } else {
                self.live - n
            },
            self.run(frees(n)).byte_pos == if n >= self.live {
                self.start
            } else {
                self.byte_pos
            },
            self.start <= self.run(frees(n)).byte_pos,
            self.run(frees(n)) == (Arena {
                live: self.run(frees(n)).live,
                byte_pos: self.run(frees(n)).byte_pos,
                ..self
            }),
            n >= self.live ==> self.run(frees(n + 1)) == self.run(frees(n)),
        decreases n,
    {
        assert(frees(n + 1).drop_last() =~= frees(n));
        if n > 0 {
            assert(frees(n).drop_last() =~= frees((n - 1) as nat));
            self.lemma_repeated_dealloc((n - 1) as nat);
        }
    }

    /// The page cursor never moves up.
    pub proof fn lemma_page_pos_falls(self, calls: Seq<Call>, i: int, j: int)
        requires
            self.inv(),
            0 <= i <= j <= calls.len(),
        ensures
            self.before(calls, j).page_pos <= self.before(calls, i).page_pos,
        decreases j - i,
    {
        if i < j {
            self.lemma_page_pos_falls(calls, i, j - 1);
            self.lemma_run_inv(calls.take(j - 1));
            self.lemma_run_unfold(calls, j - 1);
            self.before(calls, j - 1).lemma_step_inv(calls[j - 1]);
        }
    }

    /// Between two frees of the whole byte region the byte cursor never
    /// moves down.
    pub proof fn lemma_byte_pos_rises(self, calls: Seq<Call>, i: int, j: int)
        requires
            self.inv(),
            0 <= i <= j <= calls.len(),
            forall|k: int| i <= k < j ==> !self.reclaims_at(calls, k),
        ensures
            self.before(calls, i).byte_pos <= self.before(calls, j).byte_pos,
        decreases j - i,
    {
        if i < j {
            self.lemma_byte_pos_rises(calls, i, j - 1);
            self.lemma_run_inv(calls.take(j - 1));
            self.lemma_run_unfold(calls, j - 1);
            assert(!self.reclaims_at(calls, j - 1));
            self.before(calls, j - 1).lemma_step_inv(calls[j - 1]);
        }
    }

    /// Every block that is handed out lies inside the managed range.
    pub proof fn lemma_grants_in_range(self, calls: Seq<Call>, k: int)
        requires
            self.inv(),
            0 <= k < calls.len(),
        ensures
            self.granted_at(calls, k) matches Some(block) ==> block.within(self.start, self.end),
    {
        self.lemma_run_inv(calls.take(k));
        self.before(calls, k).lemma_step_inv(calls[k]);
    }

    /// Bytes and pages never overlap: in any sequence of requests, a block of
    /// bytes lies entirely below a block of pages, whichever was handed out
    /// first, as long as the byte region was not freed as a whole after the
    /// bytes and before the pages were handed out.
    pub proof fn lemma_bytes_below_pages(self, calls: Seq<Call>, i: int, j: int)
        requires
            self.inv(),
            0 <= i < calls.len(),
            0 <= j < calls.len(),
            calls[i] is AllocBytes,
            calls[j] is AllocPages,
            self.granted_at(calls, i) is Some,
            self.granted_at(calls, j) is Some,
            forall|k: int| i < k < j ==> !self.reclaims_at(calls, k),
        ensures
            self.granted_at(calls, i)->0.hi <= self.granted_at(calls, j)->0.lo,
            self.granted_at(calls, i)->0.disjoint(self.granted_at(calls, j)->0),
    {
        self.lemma_run_inv(calls.take(i));
        self.lemma_run_inv(calls.take(j));
        self.lemma_run_unfold(calls, i);
        self.lemma_run_unfold(calls, j);
        self.before(calls, i).lemma_step_inv(calls[i]);
        self.before(calls, j).lemma_step_inv(calls[j]);
        if j < i {
            self.lemma_page_pos_falls(calls, j + 1, i);
        } else {
            self.lemma_byte_pos_rises(calls, i + 1, j);
        }
    }
}

} // verus!
