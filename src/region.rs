use vstd::arithmetic::div_mod::{lemma_fundamental_div_mod, lemma_mod_pos_bound};
use vstd::arithmetic::power2::{lemma_pow2_pos, pow2};
use vstd::prelude::*;

verus! {

/// `n` is a power of two.
pub open spec fn is_power_of_two(n: nat) -> bool {
    exists|k: nat| pow2(k) == n
}

/// The sum of a sequence of counts.
pub open spec fn total(ns: Seq<nat>) -> nat
    decreases ns.len(),
{
    if ns.len() == 0 {
        0
    } else {
        ns[0] + total(ns.drop_first())
    }
}

/// The abstract state of a dual-cursor region `[start, end)`.
///
/// Bytes are handed out from `byte_pos` upward, pages from `page_pos`
/// downward. The counts are the numbers of live byte allocations and of live
/// pages.
pub struct RegionView {
    pub start: nat,
    pub end: nat,
    pub byte_pos: nat,
    pub page_pos: nat,
    pub byte_count: nat,
    pub page_count: nat,
}

/// One request made of the allocator.
pub enum Op {
    AllocBytes(nat),
    FreeBytes,
    AllocPages(nat),
    FreePages(nat),
}

impl RegionView {
    /// The inert state of an allocator that has not been given a region.
    pub open spec fn zeroed() -> RegionView {
        RegionView { start: 0, end: 0, byte_pos: 0, page_pos: 0, byte_count: 0, page_count: 0 }
    }

    /// The state right after the region `[base, base + size)` was handed over.
    pub open spec fn inited(base: nat, size: nat) -> RegionView {
        RegionView {
            start: base,
            end: base + size,
            byte_pos: base,
            page_pos: base + size,
            byte_count: 0,
            page_count: 0,
        }
    }

    /// Well-formedness for page granularity `p`.
    pub open spec fn wf(self, p: nat) -> bool {
        &&& is_power_of_two(p)
        &&& self.start <= self.byte_pos <= self.page_pos <= self.end
        &&& self.end <= usize::MAX
        &&& self.byte_count <= usize::MAX
        &&& self.byte_count == 0 ==> self.byte_pos == self.start
        &&& self.page_count == 0 ==> self.page_pos == self.end
        &&& self.page_count * p <= self.end - self.page_pos
    }

    /// A byte request of `size` fits between the cursors, and one more live
    /// allocation can still be counted.
    pub open spec fn can_alloc_bytes(self, size: nat) -> bool {
        self.byte_pos + size <= self.page_pos && self.byte_count < usize::MAX
    }

    pub open spec fn alloc_bytes(self, size: nat) -> RegionView {
        RegionView { byte_pos: self.byte_pos + size, byte_count: self.byte_count + 1, ..self }
    }

    /// Some byte allocation is live.
    pub open spec fn can_free_bytes(self) -> bool {
        self.byte_count > 0
    }

    /// One byte allocation is released; the last one releases the whole
    /// forward area.
    pub open spec fn free_bytes(self) -> RegionView {
        if self.byte_count == 1 {
            RegionView { byte_pos: self.start, byte_count: 0, ..self }
        } else {
            RegionView { byte_count: (self.byte_count - 1) as nat, ..self }
        }
    }

    /// `n` pages of `p` bytes fit between the cursors.
    pub open spec fn can_alloc_pages(self, n: nat, p: nat) -> bool {
        self.byte_pos + n * p <= self.page_pos
    }

    pub open spec fn alloc_pages(self, n: nat, p: nat) -> RegionView {
        RegionView {
            page_pos: (self.page_pos - n * p) as nat,
            page_count: self.page_count + n,
            ..self
        }
    }

    /// At least `n` pages are live.
    pub open spec fn can_free_pages(self, n: nat) -> bool {
        n <= self.page_count
    }

    /// `n` pages are released; the page area is given back only when no
    /// page stays live.
    pub open spec fn free_pages(self, n: nat) -> RegionView {
        if self.page_count == n {
            RegionView { page_pos: self.end, page_count: 0, ..self }
        } else {
            RegionView { page_count: (self.page_count - n) as nat, ..self }
        }
    }

    /// The effect of one request; a refused request leaves the state as it is.
    pub open spec fn step(self, op: Op, p: nat) -> RegionView {
        match op {
            Op::AllocBytes(size) => if self.can_alloc_bytes(size) {
                self.alloc_bytes(size)
            } else {
                self
            },
            Op::FreeBytes => if self.can_free_bytes() {
                self.free_bytes()
            } else {
                self
            },
            Op::AllocPages(n) => if self.can_alloc_pages(n, p) {
                self.alloc_pages(n, p)
            } else {
                self
            },
            Op::FreePages(n) => if self.can_free_pages(n) {
                self.free_pages(n)
            } else {
                self
            },
        }
    }

    /// The effect of a sequence of requests, in order.
    pub open spec fn run(self, ops: Seq<Op>, p: nat) -> RegionView
        decreases ops.len(),
    {
        if ops.len() == 0 {
            self
        } else {
            self.step(ops[0], p).run(ops.drop_first(), p)
        }
    }

    /// The byte requests of `sizes`, in order.
    pub open spec fn alloc_bytes_each(self, sizes: Seq<nat>, p: nat) -> RegionView
        decreases sizes.len(),
    {
        if sizes.len() == 0 {
            self
        } else {
            self.step(Op::AllocBytes(sizes[0]), p).alloc_bytes_each(sizes.drop_first(), p)
        }
    }

    /// `k` byte releases in a row.
    pub open spec fn free_bytes_times(self, k: nat, p: nat) -> RegionView
        decreases k,
    {
        if k == 0 {
            self
        } else {
            self.step(Op::FreeBytes, p).free_bytes_times((k - 1) as nat, p)
        }
    }

    /// The page requests of `ns` pages each, in order.
    pub open spec fn alloc_pages_each(self, ns: Seq<nat>, p: nat) -> RegionView
        decreases ns.len(),
    {
        if ns.len() == 0 {
            self
        } else {
            self.step(Op::AllocPages(ns[0]), p).alloc_pages_each(ns.drop_first(), p)
        }
    }

    /// The page releases of `ns` pages each, in order.
    pub open spec fn free_pages_each(self, ns: Seq<nat>, p: nat) -> RegionView
        decreases ns.len(),
    {
        if ns.len() == 0 {
            self
        } else {
            self.step(Op::FreePages(ns[0]), p).free_pages_each(ns.drop_first(), p)
        }
    }

    pub open spec fn total_bytes(self) -> int {
        self.page_pos - self.start
    }

    pub open spec fn used_bytes(self) -> int {
        self.byte_pos - self.start
    }

    pub open spec fn available_bytes(self) -> int {
        self.page_pos - self.byte_pos
    }

    pub open spec fn total_pages(self, p: nat) -> int {
        (self.end - self.byte_pos) / (p as int)
    }

    pub open spec fn used_pages(self, p: nat) -> int {
        (self.end - self.page_pos) / (p as int)
    }

    pub open spec fn available_pages(self, p: nat) -> int {
        (self.page_pos - self.byte_pos) / (p as int)
    }
}

/// A power of two is positive.
pub proof fn lemma_power_of_two_positive(p: nat)
    requires
        is_power_of_two(p),
    ensures
        p > 0,
{
    let k = choose|k: nat| pow2(k) == p;
    lemma_pow2_pos(k);
}

/// `n` blocks of `p` fit in `a` exactly when `n` is at most `a / p`.
pub proof fn lemma_count_fits(n: nat, a: nat, p: nat)
    requires
        p > 0,
    ensures
        (n <= (a as int) / (p as int)) <==> (n * p <= a),
{
    let q = (a as int) / (p as int);
    let r = (a as int) % (p as int);
    lemma_fundamental_div_mod(a as int, p as int);
    lemma_mod_pos_bound(a as int, p as int);
    assert(n <= q ==> n * p <= a) by (nonlinear_arith)
        requires
            a == p * q + r,
            0 <= r,
            p > 0,
    ;
    assert(n * p <= a ==> n <= q) by (nonlinear_arith)
        requires
            a == p * q + r,
            r < p,
            p > 0,
    ;
}

} // verus!
