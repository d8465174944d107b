//! What holds of every run of the allocator, stated over the model.
use crate::region::{is_power_of_two, lemma_power_of_two_positive, total, Op, RegionView};
use vstd::arithmetic::div_mod::{
    lemma_div_multiples_vanish, lemma_fundamental_div_mod, lemma_mod_pos_bound,
};
use vstd::prelude::*;

verus! {

/// One request, granted or refused, keeps a well-formed state well-formed:
/// the region stays as it was and `start <= byte_pos <= page_pos <= end`.
pub proof fn lemma_step_keeps_wf(s: RegionView, op: Op, p: nat)
    requires
        s.wf(p),
    ensures
        s.step(op, p).wf(p),
        s.step(op, p).start == s.start,
        s.step(op, p).end == s.end,
        s.step(op, p).start <= s.step(op, p).byte_pos <= s.step(op, p).page_pos
            <= s.step(op, p).end,
{
    match op {
        Op::AllocPages(n) => {
            if s.can_alloc_pages(n, p) {
                assert((s.page_count + n) * p == s.page_count * p + n * p) by (nonlinear_arith);
            }
        },
        Op::FreePages(n) => {
            if s.can_free_pages(n) {
                assert((s.page_count - n) * p <= s.page_count * p) by (nonlinear_arith)
                    requires
                        n <= s.page_count,
                ;
            }
        },
        _ => {},
    }
}

/// Any sequence of requests keeps a well-formed state well-formed, with
/// `start <= byte_pos <= page_pos <= end` over the same region. Every prefix
/// of a sequence is a sequence, so this holds after each single call.
pub proof fn lemma_run_keeps_wf(s: RegionView, ops: Seq<Op>, p: nat)
    requires
        s.wf(p),
    ensures
        s.run(ops, p).wf(p),
        s.run(ops, p).start == s.start,
        s.run(ops, p).end == s.end,
        s.start <= s.run(ops, p).byte_pos <= s.run(ops, p).page_pos <= s.end,
    decreases ops.len(),
{
    if ops.len() > 0 {
        lemma_step_keeps_wf(s, ops[0], p);
        lemma_run_keeps_wf(s.step(ops[0], p), ops.drop_first(), p);
    }
}

proof fn lemma_alloc_bytes_each_keeps_wf(s: RegionView, sizes: Seq<nat>, p: nat)
    requires
        s.wf(p),
    ensures
        s.alloc_bytes_each(sizes, p).wf(p),
        s.alloc_bytes_each(sizes, p).start == s.start,
    decreases sizes.len(),
{
    if sizes.len() > 0 {
        lemma_step_keeps_wf(s, Op::AllocBytes(sizes[0]), p);
        lemma_alloc_bytes_each_keeps_wf(s.step(Op::AllocBytes(sizes[0]), p), sizes.drop_first(), p);
    }
}

proof fn lemma_free_bytes_times_empties(s: RegionView, k: nat, p: nat)
    requires
        s.wf(p),
        s.byte_count == k,
    ensures
        s.free_bytes_times(k, p).wf(p),
        s.free_bytes_times(k, p).byte_count == 0,
        s.free_bytes_times(k, p).start == s.start,
    decreases k,
{
    if k > 0 {
        lemma_step_keeps_wf(s, Op::FreeBytes, p);
        lemma_free_bytes_times_empties(s.step(Op::FreeBytes, p), (k - 1) as nat, p);
    }
}

/// After byte requests from a state with no live byte allocation, releasing
/// as many as were granted puts the forward cursor back at `start`.
pub proof fn lemma_bytes_reclaimed(s: RegionView, sizes: Seq<nat>, p: nat)
    requires
        s.wf(p),
        s.byte_count == 0,
    ensures
        ({
            let t = s.alloc_bytes_each(sizes, p);
            let u = t.free_bytes_times(t.byte_count, p);
            u.byte_pos == s.start && u.used_bytes() == 0
        }),
{
    lemma_alloc_bytes_each_keeps_wf(s, sizes, p);
    let t = s.alloc_bytes_each(sizes, p);
    lemma_free_bytes_times_empties(t, t.byte_count, p);
}

proof fn lemma_alloc_pages_each_keeps_wf(s: RegionView, ns: Seq<nat>, p: nat)
    requires
        s.wf(p),
    ensures
        s.alloc_pages_each(ns, p).wf(p),
        s.alloc_pages_each(ns, p).end == s.end,
    decreases ns.len(),
{
    if ns.len() > 0 {
        lemma_step_keeps_wf(s, Op::AllocPages(ns[0]), p);
        lemma_alloc_pages_each_keeps_wf(s.step(Op::AllocPages(ns[0]), p), ns.drop_first(), p);
    }
}

proof fn lemma_free_pages_each_empties(s: RegionView, fs: Seq<nat>, p: nat)
    requires
        s.wf(p),
        total(fs) == s.page_count,
    ensures
        s.free_pages_each(fs, p).wf(p),
        s.free_pages_each(fs, p).page_count == 0,
        s.free_pages_each(fs, p).end == s.end,
    decreases fs.len(),
{
    if fs.len() > 0 {
        lemma_step_keeps_wf(s, Op::FreePages(fs[0]), p);
        lemma_free_pages_each_empties(s.step(Op::FreePages(fs[0]), p), fs.drop_first(), p);
    }
}

/// After page requests from a state with no live page, releases that add up
/// to the pages granted, in any order and grouping, put the page cursor back
/// at `end`.
pub proof fn lemma_pages_reclaimed(s: RegionView, ns: Seq<nat>, fs: Seq<nat>, p: nat)
    requires
        s.wf(p),
        s.page_count == 0,
        total(fs) == s.alloc_pages_each(ns, p).page_count,
    ensures
        s.alloc_pages_each(ns, p).free_pages_each(fs, p).page_pos == s.end,
        s.alloc_pages_each(ns, p).free_pages_each(fs, p).used_pages(p) == 0,
{
    lemma_alloc_pages_each_keeps_wf(s, ns, p);
    lemma_free_pages_each_empties(s.alloc_pages_each(ns, p), fs, p);
    lemma_power_of_two_positive(p);
}

proof fn lemma_alloc_pages_each_granted(s: RegionView, ns: Seq<nat>, p: nat)
    requires
        s.wf(p),
        s.byte_pos + total(ns) * p <= s.page_pos,
    ensures
        s.alloc_pages_each(ns, p).wf(p),
        s.alloc_pages_each(ns, p).page_count == s.page_count + total(ns),
        s.alloc_pages_each(ns, p).page_pos == s.page_pos - total(ns) * p,
        s.alloc_pages_each(ns, p).byte_pos == s.byte_pos,
        s.alloc_pages_each(ns, p).end == s.end,
    decreases ns.len(),
{
    if ns.len() > 0 {
        let rest = total(ns.drop_first());
        assert(total(ns) * p == ns[0] * p + rest * p) by (nonlinear_arith)
            requires
                total(ns) == ns[0] + rest,
        ;
        lemma_step_keeps_wf(s, Op::AllocPages(ns[0]), p);
        lemma_alloc_pages_each_granted(s.step(Op::AllocPages(ns[0]), p), ns.drop_first(), p);
    } else {
        assert(total(ns) * p == 0) by (nonlinear_arith)
            requires
                total(ns) == 0,
        ;
    }
}

/// In a fresh region of `size` bytes, page requests adding up to
/// `size / p` pages are all granted and leave `used_pages == size / p`; one
/// more single page is then refused, and the refusal changes nothing.
pub proof fn lemma_pages_exhausted(base: nat, size: nat, p: nat, ns: Seq<nat>)
    requires
        is_power_of_two(p),
        base + size <= usize::MAX,
        total(ns) == size / p,
    ensures
        ({
            let t = RegionView::inited(base, size).alloc_pages_each(ns, p);
            &&& t.page_count == size / p
            &&& t.used_pages(p) == size / p
            &&& !t.can_alloc_pages(1, p)
            &&& t.step(Op::AllocPages(1), p) == t
        }),
{
    lemma_power_of_two_positive(p);
    let s = RegionView::inited(base, size);
    let q = size / p;
    lemma_fundamental_div_mod(size as int, p as int);
    lemma_mod_pos_bound(size as int, p as int);
    assert(q * p == p * q) by (nonlinear_arith);
    lemma_alloc_pages_each_granted(s, ns, p);
    lemma_div_multiples_vanish(q as int, p as int);
}

/// A byte request that would carry the forward cursor past the page cursor
/// is refused and changes nothing, however much of the whole region the
/// pages leave: the cursors, not the region's size, decide.
pub proof fn lemma_cursors_gate_bytes(s: RegionView, size: nat, p: nat)
    requires
        s.wf(p),
        s.byte_pos + size > s.page_pos,
    ensures
        !s.can_alloc_bytes(size),
        s.step(Op::AllocBytes(size), p) == s,
{
}

} // verus!
