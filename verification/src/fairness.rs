//! Round-robin fairness: in every run of as many selections as there are
//! runnable threads, each runnable thread is selected exactly once.
//!
//! The setting is the steady state of preemptive scheduling: every selected
//! thread runs until it yields or the timer preempts it, and meanwhile no
//! thread is created and none ends. The statements are
//! `lemma_picks_are_runnable`, `lemma_no_repeat_within_pass`,
//! `lemma_pass_visits_every_runnable` and `lemma_bounded_wait`, at the end
//! of this file; `lemma_pass_then_yield` ties them to the run loop. The proofs walk along
//! a line of positions that goes round the table again and again, on which
//! successive selections lie at strictly growing positions.

use vstd::prelude::*;
use crate::scheduler::{
    round_robin_next,
    scan_offset,
    scan_origin,
    slot_at,
    lemma_scan_offset,
    table_after_pass,
    table_after_yield,
};
use crate::thread::{Thread, ThreadState, NTHREAD};

verus! {

/// The number of runnable threads among the first `n` slots.
pub open spec fn runnable_below(slots: Seq<Thread>, n: int) -> nat
    decreases n,
{
    if n <= 0 {
        0
    } else {
        runnable_below(slots, n - 1) + if slots[n - 1].state == ThreadState::Runnable {
            1nat
        } else {
            0nat
        }
    }
}

/// The number of runnable threads in the table.
pub open spec fn runnable_count(slots: Seq<Thread>) -> nat {
    runnable_below(slots, NTHREAD as int)
}

/// The thread that the round-robin policy selects in its pass number `n`,
/// counted from 0, when it starts with `current` as the processor's current
/// thread and each selected thread has yielded by the next pass.
pub open spec fn nth_pick(slots: Seq<Thread>, current: Option<usize>, n: nat) -> Option<usize>
    decreases n,
{
    if n == 0 {
        round_robin_next(slots, current)
    } else {
        match nth_pick(slots, current, (n - 1) as nat) {
            Some(previous) => round_robin_next(slots, Some(previous)),
            None => None,
        }
    }
}

/// Whether the thread at position `x` is runnable, where positions count on
/// beyond the end of the table and wrap round to its start.
spec fn runnable_at(slots: Seq<Thread>, x: int) -> bool {
    slots[x % (NTHREAD as int)].state == ThreadState::Runnable
}

/// The number of runnable positions from `a` up to but not including `b`.
spec fn runnable_in(slots: Seq<Thread>, a: int, b: int) -> nat
    decreases b - a,
{
    if b <= a {
        0
    } else {
        runnable_in(slots, a, b - 1) + if runnable_at(slots, b - 1) {
            1nat
        } else {
            0nat
        }
    }
}

/// The position of the thread selected in pass `n`, on the line of
/// positions that starts at `origin`.
spec fn pick_position(slots: Seq<Thread>, origin: int, n: nat) -> int
    decreases n,
{
    let previous = if n == 0 {
        origin
    } else {
        pick_position(slots, origin, (n - 1) as nat)
    };
    previous + scan_offset(slots, previous % (NTHREAD as int), 1)
}

proof fn lemma_runnable_in_split(slots: Seq<Thread>, a: int, b: int, c: int)
    requires
        a <= b <= c,
    ensures
        runnable_in(slots, a, c) == runnable_in(slots, a, b) + runnable_in(slots, b, c),
    decreases c - b,
{
    if c > b {
        lemma_runnable_in_split(slots, a, b, c - 1);
    }
}

proof fn lemma_runnable_in_none(slots: Seq<Thread>, a: int, b: int)
    requires
        forall|y: int| a <= y < b ==> !runnable_at(slots, y),
    ensures
        runnable_in(slots, a, b) == 0,
    decreases b - a,
{
    if b > a {
        lemma_runnable_in_none(slots, a, b - 1);
    }
}

/// A window of `NTHREAD` positions holds every slot once, wherever it
/// starts.
proof fn lemma_runnable_in_lap(slots: Seq<Thread>, a: int)
    requires
        0 <= a,
    ensures
        runnable_in(slots, a, a + NTHREAD) == runnable_count(slots),
    decreases a,
{
    if a == 0 {
        lemma_runnable_in_is_below(slots, NTHREAD as int);
    } else {
        lemma_runnable_in_lap(slots, a - 1);
        lemma_runnable_in_split(slots, a - 1, a, a - 1 + NTHREAD);
        assert(runnable_in(slots, a - 1, a) == if runnable_at(slots, a - 1) {
            1nat
        } else {
            0nat
        }) by {
            assert(runnable_in(slots, a - 1, a - 1) == 0);
        }
        assert(runnable_at(slots, a - 1 + NTHREAD) == runnable_at(slots, a - 1));
    }
}

proof fn lemma_runnable_in_is_below(slots: Seq<Thread>, n: int)
    requires
        0 <= n <= NTHREAD,
    ensures
        runnable_in(slots, 0, n) == runnable_below(slots, n),
    decreases n,
{
    if n > 0 {
        lemma_runnable_in_is_below(slots, n - 1);
    }
}

/// Whether some thread of the table is runnable.
pub open spec fn some_runnable(slots: Seq<Thread>) -> bool {
    exists|t: int| 0 <= t < NTHREAD && (#[trigger] slots[t]).state == ThreadState::Runnable
}

/// Going `j` steps from the slot of position `x` leads to the slot of
/// position `x + j`.
proof fn lemma_slot_of_position(x: int, j: int)
    requires
        0 <= x,
        0 <= j,
    ensures
        slot_at(x % (NTHREAD as int), j) == (x + j) % (NTHREAD as int),
{
}

/// Every slot is reached from every origin within one lap.
proof fn lemma_slot_is_reached(origin: int, t: int)
    requires
        0 <= origin < NTHREAD,
        0 <= t < NTHREAD,
    ensures
        1 <= (t - origin - 1) % (NTHREAD as int) + 1 <= NTHREAD,
        slot_at(origin, (t - origin - 1) % (NTHREAD as int) + 1) == t,
{
}

/// With a runnable thread in the table, the scan from any origin finds one.
proof fn lemma_scan_finds(slots: Seq<Thread>, origin: int)
    requires
        slots.len() == NTHREAD,
        0 <= origin < NTHREAD,
        some_runnable(slots),
    ensures
        1 <= scan_offset(slots, origin, 1) <= NTHREAD,
{
    lemma_scan_offset(slots, origin, 1);
    let t = choose|t: int| 0 <= t < NTHREAD && (#[trigger] slots[t]).state == ThreadState::Runnable;
    lemma_slot_is_reached(origin, t);
    let k = (t - origin - 1) % (NTHREAD as int) + 1;
    if scan_offset(slots, origin, 1) > NTHREAD {
        assert(slots[slot_at(origin, k)].state != ThreadState::Runnable);
    }
}

/// From any position, the scan meets a runnable thread within one lap: it
/// stops at the first runnable position after `x`.
proof fn lemma_scan_step(slots: Seq<Thread>, x: int)
    requires
        slots.len() == NTHREAD,
        0 <= x,
        some_runnable(slots),
    ensures
        1 <= scan_offset(slots, x % (NTHREAD as int), 1) <= NTHREAD,
        runnable_at(slots, x + scan_offset(slots, x % (NTHREAD as int), 1)),
        forall|y: int|
            x < y < x + scan_offset(slots, x % (NTHREAD as int), 1) ==> !runnable_at(slots, y),
        runnable_in(slots, x + 1, x + scan_offset(slots, x % (NTHREAD as int), 1) + 1) == 1,
{
    let origin = x % (NTHREAD as int);
    let offset = scan_offset(slots, origin, 1);
    lemma_scan_offset(slots, origin, 1);
    lemma_scan_finds(slots, origin);
    assert forall|y: int| x < y < x + offset implies !runnable_at(slots, y) by {
        lemma_slot_of_position(x, y - x);
        assert(slots[slot_at(origin, y - x)].state != ThreadState::Runnable);
    }
    lemma_slot_of_position(x, offset);
    assert(runnable_at(slots, x + offset));
    lemma_runnable_in_none(slots, x + 1, x + offset);
    assert(runnable_in(slots, x + 1, x + offset + 1) == runnable_in(slots, x + 1, x + offset) + 1);
}

/// The positions of successive selections: each is the first runnable
/// position after the one before.
proof fn lemma_pick_position(slots: Seq<Thread>, origin: int, n: nat)
    requires
        slots.len() == NTHREAD,
        0 <= origin < NTHREAD,
        some_runnable(slots),
    ensures
        origin < pick_position(slots, origin, n),
        runnable_at(slots, pick_position(slots, origin, n)),
        n > 0 ==> pick_position(slots, origin, (n - 1) as nat) < pick_position(slots, origin, n),
        n > 0 ==> runnable_in(
            slots,
            pick_position(slots, origin, (n - 1) as nat) + 1,
            pick_position(slots, origin, n) + 1,
        ) == 1,
    decreases n,
{
    if n == 0 {
        lemma_scan_step(slots, origin);
    } else {
        lemma_pick_position(slots, origin, (n - 1) as nat);
        lemma_scan_step(slots, pick_position(slots, origin, (n - 1) as nat));
    }
}

/// The round-robin choice after the thread at position `x`, or from the
/// scan's origin `x`, is the thread at the first runnable position after
/// `x`.
proof fn lemma_choice_at_position(slots: Seq<Thread>, x: int)
    requires
        slots.len() == NTHREAD,
        0 <= x,
        some_runnable(slots),
    ensures
        round_robin_next(slots, Some((x % (NTHREAD as int)) as usize)) == Some(
            ((x + scan_offset(slots, x % (NTHREAD as int), 1)) % (NTHREAD as int)) as usize,
        ),
{
    let slot = x % (NTHREAD as int);
    let offset = scan_offset(slots, slot, 1);
    lemma_scan_finds(slots, slot);
    lemma_slot_of_position(x, offset);
    assert(scan_origin(Some(slot as usize)) == slot);
}

/// The thread selected in pass `n` is the one at the position of pass `n`.
proof fn lemma_nth_pick_is_at_position(slots: Seq<Thread>, current: Option<usize>, n: nat)
    requires
        slots.len() == NTHREAD,
        current matches Some(tid) ==> tid < NTHREAD,
        some_runnable(slots),
    ensures
        nth_pick(slots, current, n) == Some(
            (pick_position(slots, scan_origin(current), n) % (NTHREAD as int)) as usize,
        ),
    decreases n,
{
    let origin = scan_origin(current);
    if n == 0 {
        lemma_scan_finds(slots, origin);
        assert(origin % (NTHREAD as int) == origin);
    } else {
        lemma_nth_pick_is_at_position(slots, current, (n - 1) as nat);
        lemma_pick_position(slots, origin, (n - 1) as nat);
        lemma_choice_at_position(slots, pick_position(slots, origin, (n - 1) as nat));
    }
}

/// Between the positions of pass `i` and pass `j` lie exactly `j - i`
/// runnable positions, the later one included.
proof fn lemma_picks_count(slots: Seq<Thread>, origin: int, i: nat, j: nat)
    requires
        slots.len() == NTHREAD,
        0 <= origin < NTHREAD,
        some_runnable(slots),
        i <= j,
    ensures
        pick_position(slots, origin, i) <= pick_position(slots, origin, j),
        i < j ==> pick_position(slots, origin, i) < pick_position(slots, origin, j),
        runnable_in(
            slots,
            pick_position(slots, origin, i) + 1,
            pick_position(slots, origin, j) + 1,
        ) == j - i,
    decreases j - i,
{
    if i < j {
        lemma_picks_count(slots, origin, i, (j - 1) as nat);
        lemma_pick_position(slots, origin, j);
        lemma_runnable_in_split(
            slots,
            pick_position(slots, origin, i) + 1,
            pick_position(slots, origin, (j - 1) as nat) + 1,
            pick_position(slots, origin, j) + 1,
        );
    }
}

/// Every runnable position after the position of pass `i` is the position
/// of a later pass: of the pass that comes as many passes after `i` as
/// there are runnable positions from there up to it.
proof fn lemma_runnable_position_is_picked(slots: Seq<Thread>, origin: int, i: nat, y: int)
    requires
        slots.len() == NTHREAD,
        0 <= origin < NTHREAD,
        some_runnable(slots),
        pick_position(slots, origin, i) < y,
        runnable_at(slots, y),
    ensures
        runnable_in(slots, pick_position(slots, origin, i) + 1, y + 1) >= 1,
        pick_position(
            slots,
            origin,
            i + runnable_in(slots, pick_position(slots, origin, i) + 1, y + 1),
        ) == y,
    decreases y - pick_position(slots, origin, i),
{
    let here = pick_position(slots, origin, i);
    let next = pick_position(slots, origin, i + 1);
    lemma_pick_position(slots, origin, i);
    lemma_pick_position(slots, origin, i + 1);
    lemma_scan_step(slots, here);
    assert(next <= y);
    if next < y {
        lemma_runnable_position_is_picked(slots, origin, i + 1, y);
        lemma_runnable_in_split(slots, here + 1, next + 1, y + 1);
    }
}

/// A table that counts a runnable thread holds one.
proof fn lemma_counted_is_there(slots: Seq<Thread>, n: int)
    requires
        0 <= n <= NTHREAD,
        runnable_below(slots, n) > 0,
    ensures
        exists|t: int| 0 <= t < n && (#[trigger] slots[t]).state == ThreadState::Runnable,
    decreases n,
{
    if n > 0 && slots[n - 1].state != ThreadState::Runnable {
        lemma_counted_is_there(slots, n - 1);
    }
}

/// A pass followed by the yield of the selected thread leaves the table as
/// it was and makes the selected thread the current one. So when no thread
/// is running and each selected thread yields in its turn, the policy
/// selects `nth_pick(slots, current, 0)`, `nth_pick(slots, current, 1)` and
/// so on.
pub proof fn lemma_pass_then_yield(slots: Seq<Thread>, current: Option<usize>, next: usize)
    requires
        slots.len() == NTHREAD,
        current matches Some(tid) ==> tid < NTHREAD,
        forall|i: int| 0 <= i < NTHREAD ==> (#[trigger] slots[i]).state != ThreadState::Running,
        round_robin_next(slots, current) == Some(next),
    ensures
        next < NTHREAD,
        slots[next as int].state == ThreadState::Runnable,
        table_after_pass(slots, current, Some(next))[next as int].state == ThreadState::Running,
        table_after_yield(table_after_pass(slots, current, Some(next)), Some(next)) == slots,
{
    lemma_scan_offset(slots, scan_origin(current), 1);
    assert(table_after_yield(table_after_pass(slots, current, Some(next)), Some(next)) =~= slots);
}

/// Every selection is a runnable thread, as long as the table holds one.
pub proof fn lemma_picks_are_runnable(slots: Seq<Thread>, current: Option<usize>, n: nat)
    requires
        slots.len() == NTHREAD,
        current matches Some(tid) ==> tid < NTHREAD,
        runnable_count(slots) > 0,
    ensures
        nth_pick(slots, current, n) matches Some(tid) && tid < NTHREAD && slots[tid as int].state
            == ThreadState::Runnable,
{
    lemma_counted_is_there(slots, NTHREAD as int);
    lemma_nth_pick_is_at_position(slots, current, n);
    lemma_pick_position(slots, scan_origin(current), n);
}

/// No thread is selected twice within a run of as many selections as there
/// are runnable threads.
pub proof fn lemma_no_repeat_within_pass(
    slots: Seq<Thread>,
    current: Option<usize>,
    i: nat,
    j: nat,
)
    requires
        slots.len() == NTHREAD,
        current matches Some(tid) ==> tid < NTHREAD,
        i < j < i + runnable_count(slots),
    ensures
        nth_pick(slots, current, i) != nth_pick(slots, current, j),
{
    let origin = scan_origin(current);
    let at_i = pick_position(slots, origin, i);
    let at_j = pick_position(slots, origin, j);
    lemma_counted_is_there(slots, NTHREAD as int);
    lemma_nth_pick_is_at_position(slots, current, i);
    lemma_nth_pick_is_at_position(slots, current, j);
    lemma_pick_position(slots, origin, i);
    lemma_picks_count(slots, origin, i, j);
    if at_i % (NTHREAD as int) == at_j % (NTHREAD as int) {
        assert(at_j >= at_i + NTHREAD);
        lemma_runnable_in_lap(slots, at_i + 1);
        lemma_runnable_in_split(slots, at_i + 1, at_i + 1 + NTHREAD, at_j + 1);
    }
}

/// Every runnable thread is selected within every run of as many
/// selections as there are runnable threads.
pub proof fn lemma_pass_visits_every_runnable(
    slots: Seq<Thread>,
    current: Option<usize>,
    i: nat,
    tid: usize,
)
    requires
        slots.len() == NTHREAD,
        current matches Some(tid) ==> tid < NTHREAD,
        tid < NTHREAD,
        slots[tid as int].state == ThreadState::Runnable,
    ensures
        exists|k: nat|
            i <= k < i + runnable_count(slots) && #[trigger] nth_pick(slots, current, k) == Some(
                tid,
            ),
{
    let origin = scan_origin(current);
    let at_i = pick_position(slots, origin, i);
    assert(some_runnable(slots)) by {
        assert(slots[tid as int].state == ThreadState::Runnable);
    }
    lemma_pick_position(slots, origin, i);
    lemma_nth_pick_is_at_position(slots, current, i);
    lemma_runnable_in_lap(slots, at_i);
    lemma_runnable_in_split(slots, at_i, at_i + 1, at_i + NTHREAD);
    assert(runnable_in(slots, at_i, at_i + 1) == 1) by {
        assert(runnable_in(slots, at_i, at_i) == 0);
    }
    let distance = (tid - at_i) % (NTHREAD as int);
    let y = at_i + distance;
    assert(y % (NTHREAD as int) == tid);
    if distance == 0 {
        assert(nth_pick(slots, current, i) == Some(tid));
    } else {
        lemma_runnable_position_is_picked(slots, origin, i, y);
        let passes = runnable_in(slots, at_i + 1, y + 1);
        lemma_runnable_in_split(slots, at_i + 1, y + 1, at_i + NTHREAD);
        lemma_nth_pick_is_at_position(slots, current, i + passes);
        assert(nth_pick(slots, current, i + passes) == Some(tid));
    }
}

proof fn lemma_runnable_below_bound(slots: Seq<Thread>, n: int)
    requires
        0 <= n,
    ensures
        runnable_below(slots, n) <= n,
    decreases n,
{
    if n > 0 {
        lemma_runnable_below_bound(slots, n - 1);
    }
}

/// Bounded wait: a runnable thread is selected after at most `NTHREAD - 1`
/// selections of other threads, wherever the round stands.
pub proof fn lemma_bounded_wait(slots: Seq<Thread>, current: Option<usize>, i: nat, tid: usize)
    requires
        slots.len() == NTHREAD,
        current matches Some(tid) ==> tid < NTHREAD,
        tid < NTHREAD,
        slots[tid as int].state == ThreadState::Runnable,
    ensures
        exists|k: nat|
            i <= k < i + NTHREAD && #[trigger] nth_pick(slots, current, k) == Some(tid),
{
    lemma_runnable_below_bound(slots, NTHREAD as int);
    lemma_pass_visits_every_runnable(slots, current, i, tid);
    let k = choose|k: nat|
        i <= k < i + runnable_count(slots) && #[trigger] nth_pick(slots, current, k) == Some(tid);
    assert(i <= k < i + NTHREAD && nth_pick(slots, current, k) == Some(tid));
}

} // verus!
