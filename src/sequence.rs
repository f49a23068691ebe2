//! What a sequence of allocation requests does to an arena, and the laws
//! that hold of every such sequence.
//!
//! A request is a pair `(size, align)`. The requests are applied in order,
//! each one by `Arena::alloc_layout`, whose contract is stated through
//! `placement` and `used_after`; a request that does not fit leaves the
//! cursor where it was, and the next one is tried from there.
use vstd::arithmetic::div_mod::lemma_fundamental_div_mod;
use vstd::arithmetic::power2::is_pow2;
use vstd::prelude::*;

use crate::arena::{align_up, lemma_align_up, placement, used_after, ArenaModel};

verus! {

/// Every alignment in `reqs` is a power of two.
pub open spec fn valid_requests(reqs: Seq<(nat, nat)>) -> bool {
    forall|i: int| 0 <= i < reqs.len() ==> is_pow2(#[trigger] reqs[i].1 as int)
}

/// The cursor after applying `reqs`, in order, to an arena of `capacity`
/// bytes whose cursor stood at `used`.
pub open spec fn final_used(capacity: nat, used: nat, reqs: Seq<(nat, nat)>) -> nat
    decreases reqs.len(),
{
    if reqs.len() == 0 {
        used
    } else {
        let before = final_used(capacity, used, reqs.drop_last());
        used_after(capacity, before, reqs.last().0, reqs.last().1)
    }
}

/// Where each request of `reqs` was placed (`None` where it failed).
pub open spec fn placements(capacity: nat, used: nat, reqs: Seq<(nat, nat)>) -> Seq<Option<nat>>
    decreases reqs.len(),
{
    if reqs.len() == 0 {
        Seq::empty()
    } else {
        let before = final_used(capacity, used, reqs.drop_last());
        placements(capacity, used, reqs.drop_last()).push(
            placement(capacity, before, reqs.last().0, reqs.last().1),
        )
    }
}

/// Every request of `reqs` succeeded.
pub open spec fn all_placed(capacity: nat, used: nat, reqs: Seq<(nat, nat)>) -> bool {
    forall|i: int|
        0 <= i < reqs.len() ==> #[trigger] placements(capacity, used, reqs)[i] is Some
}

proof fn lemma_placements_len(capacity: nat, used: nat, reqs: Seq<(nat, nat)>)
    ensures
        placements(capacity, used, reqs).len() == reqs.len(),
    decreases reqs.len(),
{
    if reqs.len() > 0 {
        lemma_placements_len(capacity, used, reqs.drop_last());
    }
}

/// One request never moves the cursor back, nor past the end.
proof fn lemma_step_monotone(capacity: nat, used: nat, size: nat, align: nat)
    requires
        used <= capacity,
        is_pow2(align as int),
    ensures
        used <= used_after(capacity, used, size, align) <= capacity,
{
    reveal(is_pow2);
    lemma_align_up(used, align);
}

/// A multiple of `align` that is at least `offset` is at least
/// `align_up(offset, align)`.
proof fn lemma_align_up_least(offset: nat, align: nat, m: nat)
    requires
        align > 0,
        m % align == 0,
        offset <= m,
    ensures
        align_up(offset, align) <= m,
{
    lemma_align_up(offset, align);
    let x = align_up(offset, align);
    lemma_fundamental_div_mod(m as int, align as int);
    lemma_fundamental_div_mod(x as int, align as int);
    let p = m as int / align as int;
    let q = x as int / align as int;
    assert(align * p > align * q - align);
    assert(align * p > align * (q - 1)) by (nonlinear_arith)
        requires
            align * p > align * q - align,
    ;
    assert(p > q - 1) by (nonlinear_arith)
        requires
            align * p > align * (q - 1),
            align > 0,
    ;
    assert(align * p >= align * q) by (nonlinear_arith)
        requires
            p >= q,
            align > 0,
    ;
}

/// Rounding up keeps the order of two cursors.
proof fn lemma_align_up_monotone(a: nat, b: nat, align: nat)
    requires
        align > 0,
        a <= b,
    ensures
        align_up(a, align) <= align_up(b, align),
{
    lemma_align_up(b, align);
    lemma_align_up_least(a, align, align_up(b, align));
}

/// Monotonicity: while requests are applied without a reset, the cursor
/// never moves back and never passes the end of the buffer.
pub proof fn lemma_used_monotone(
    capacity: nat,
    used: nat,
    reqs: Seq<(nat, nat)>,
    i: nat,
    j: nat,
)
    requires
        used <= capacity,
        valid_requests(reqs),
        i <= j <= reqs.len(),
    ensures
        used <= final_used(capacity, used, reqs.take(i as int)),
        final_used(capacity, used, reqs.take(i as int)) <= final_used(
            capacity,
            used,
            reqs.take(j as int),
        ),
        final_used(capacity, used, reqs.take(j as int)) <= capacity,
    decreases j,
{
    if j == 0 {
        assert(reqs.take(0) =~= Seq::<(nat, nat)>::empty());
    } else {
        let prev = (j - 1) as nat;
        let i2 = if i == j {
            prev
        } else {
            i
        };
        lemma_used_monotone(capacity, used, reqs, i2, prev);
        assert(reqs.take(j as int).drop_last() =~= reqs.take(prev as int));
        assert(reqs.take(j as int).last() == reqs[prev as int]);
        lemma_step_monotone(
            capacity,
            final_used(capacity, used, reqs.take(prev as int)),
            reqs[prev as int].0,
            reqs[prev as int].1,
        );
    }
}

/// Determinism: two arenas of equal capacity whose cursors stand at the same
/// place (two new arenas, or two that were just reset) place the same
/// requests at the same offsets and end with the same cursor.
pub proof fn lemma_deterministic(a: ArenaModel, b: ArenaModel, reqs: Seq<(nat, nat)>)
    requires
        a.capacity() == b.capacity(),
        a.used == b.used,
    ensures
        placements(a.capacity(), a.used, reqs) == placements(b.capacity(), b.used, reqs),
        final_used(a.capacity(), a.used, reqs) == final_used(b.capacity(), b.used, reqs),
{
}

/// Where every request succeeded from a cursor at `hi`, every one succeeds
/// from an earlier cursor `lo` too, and the cursor ends no further on.
proof fn lemma_earlier_cursor(capacity: nat, lo: nat, hi: nat, reqs: Seq<(nat, nat)>)
    requires
        lo <= hi <= capacity,
        valid_requests(reqs),
        all_placed(capacity, hi, reqs),
    ensures
        all_placed(capacity, lo, reqs),
        final_used(capacity, lo, reqs) <= final_used(capacity, hi, reqs),
    decreases reqs.len(),
{
    lemma_placements_len(capacity, lo, reqs);
    lemma_placements_len(capacity, hi, reqs);
    if reqs.len() > 0 {
        let init = reqs.drop_last();
        let n = reqs.len() - 1;
        lemma_placements_len(capacity, lo, init);
        lemma_placements_len(capacity, hi, init);
        assert(valid_requests(init)) by {
            assert forall|i: int| 0 <= i < init.len() implies is_pow2(
                #[trigger] init[i].1 as int,
            ) by {
                assert(init[i] == reqs[i]);
            }
        }
        assert(all_placed(capacity, hi, init)) by {
            assert forall|i: int| 0 <= i < init.len() implies #[trigger] placements(
                capacity,
                hi,
                init,
            )[i] is Some by {
                assert(placements(capacity, hi, reqs)[i] is Some);
                assert(placements(capacity, hi, reqs)[i] == placements(capacity, hi, init)[i]);
            }
        }
        lemma_earlier_cursor(capacity, lo, hi, init);
        lemma_used_monotone(capacity, hi, init, init.len(), init.len());
        assert(init.take(init.len() as int) =~= init);
        let (size, align) = reqs.last();
        assert(is_pow2(align as int)) by {
            assert(reqs.last() == reqs[n]);
        }
        reveal(is_pow2);
        let lo_before = final_used(capacity, lo, init);
        let hi_before = final_used(capacity, hi, init);
        lemma_align_up_monotone(lo_before, hi_before, align);
        assert(placements(capacity, hi, reqs)[n] is Some);
        assert forall|i: int| 0 <= i < reqs.len() implies #[trigger] placements(
            capacity,
            lo,
            reqs,
        )[i] is Some by {
            if i < n {
                assert(placements(capacity, lo, init)[i] is Some);
                assert(placements(capacity, lo, reqs)[i] == placements(capacity, lo, init)[i]);
            }
        }
    }
}

/// Reuse after a reset: a sequence of requests that all succeeded, from
/// wherever the cursor stood, all succeed again once the arena is reset,
/// and end with the cursor no further on. Where the earlier run began on an
/// empty arena too, the offsets are the same (`lemma_deterministic`).
pub proof fn lemma_reuse_after_reset(capacity: nat, used: nat, reqs: Seq<(nat, nat)>)
    requires
        used <= capacity,
        valid_requests(reqs),
        all_placed(capacity, used, reqs),
    ensures
        all_placed(capacity, 0, reqs),
        final_used(capacity, 0, reqs) <= final_used(capacity, used, reqs),
{
    lemma_earlier_cursor(capacity, 0, used, reqs);
    assert forall|i: int| 0 <= i < reqs.len() implies #[trigger] placements(
        capacity,
        0,
        reqs,
    )[i] is Some by {
        assert(placements(capacity, used, reqs)[i] is Some);
    }
}

} // verus!
