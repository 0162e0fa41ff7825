//! Runs of steps of one cell's shared state. The cell's handles take their
//! steps one at a time under a lock, so the steps form one sequence; the facts
//! below are proved of every sequence of steps (the link from a call through
//! a handle to its step is by construction, not part of these proofs).
use std::sync::Arc;
use vstd::prelude::*;
use crate::packed::pack;
use crate::state::{step, CellState, Op};

verus! {

broadcast use crate::packed::lemma_unpack_pack;

/// The state that the operations `ops`, taken in order, lead `s` to.
pub open spec fn run<T>(s: CellState<T>, ops: Seq<Op<T>>) -> CellState<T>
    decreases ops.len(),
{
    if ops.len() == 0 {
        s
    } else {
        step(run(s, ops.drop_last()), ops.last()).0
    }
}

/// What the `i`-th operation of `ops` hands back, when `ops` runs from `s`.
pub open spec fn output<T>(s: CellState<T>, ops: Seq<Op<T>>, i: int) -> Option<Arc<T>> {
    step(run(s, ops.take(i)), ops[i]).1
}

/// The number of handles and read guards that `ops` makes.
pub open spec fn acquires<T>(ops: Seq<Op<T>>) -> nat
    decreases ops.len(),
{
    if ops.len() == 0 {
        0
    } else {
        acquires(ops.drop_last()) + if ops.last() is Acquire || ops.last() is Borrow {
            1nat
        } else {
            0nat
        }
    }
}

/// The number of handles and read guards that `ops` gives up.
pub open spec fn releases<T>(ops: Seq<Op<T>>) -> nat
    decreases ops.len(),
{
    if ops.len() == 0 {
        0
    } else {
        releases(ops.drop_last()) + if ops.last() is Release {
            1nat
        } else {
            0nat
        }
    }
}

/// The handles and read guards outstanding after `ops`, counting the handle
/// that made the cell.
pub open spec fn outstanding<T>(ops: Seq<Op<T>>) -> int {
    1 + acquires(ops) - releases(ops)
}

/// Every operation of `ops` goes through a handle that is still outstanding.
pub open spec fn through_live_handles<T>(ops: Seq<Op<T>>) -> bool {
    forall|i: int| 0 <= i < ops.len() ==> #[trigger] outstanding(ops.take(i)) > 0
}

/// The `i`-th operation of `ops` is a release that reclaims the value.
pub open spec fn reclaims_at<T>(s: CellState<T>, ops: Seq<Op<T>>, i: int) -> bool {
    ops[i] is Release && output(s, ops, i) is Some
}

/// `v` is the value a cell was made with, or one that `ops` installs.
pub open spec fn installed<T>(first: Arc<T>, ops: Seq<Op<T>>, v: Arc<T>) -> bool {
    v == first || exists|j: int| 0 <= j < ops.len() && ops[j] == Op::Replace(v)
}

/// The state of a cell just made with `data`.
pub open spec fn fresh<T>(data: Arc<T>) -> CellState<T> {
    CellState { word: pack(1, 1), value: data }
}

/// Every step keeps a well-formed state well formed.
pub proof fn lemma_step_keeps_wf<T>(s: CellState<T>, op: Op<T>)
    requires
        s.wf(),
    ensures
        step(s, op).0.wf(),
{
}

/// A well-formed state stays well formed through any run of operations: the
/// tag is not zero while any handle is outstanding.
pub proof fn lemma_run_keeps_wf<T>(s: CellState<T>, ops: Seq<Op<T>>)
    requires
        s.wf(),
    ensures
        run(s, ops).wf(),
    decreases ops.len(),
{
    if ops.len() > 0 {
        lemma_run_keeps_wf(s, ops.drop_last());
        lemma_step_keeps_wf(run(s, ops.drop_last()), ops.last());
    }
}

proof fn lemma_prefix_through_live<T>(ops: Seq<Op<T>>, n: int)
    requires
        through_live_handles(ops),
        0 <= n <= ops.len(),
    ensures
        through_live_handles(ops.take(n)),
{
    assert forall|i: int| 0 <= i < ops.take(n).len() implies #[trigger] outstanding(
        ops.take(n).take(i),
    ) > 0 by {
        assert(ops.take(n).take(i) =~= ops.take(i));
        assert(outstanding(ops.take(i)) > 0);
    }
}

proof fn lemma_acquires_prefix<T>(ops: Seq<Op<T>>, n: int)
    requires
        0 <= n <= ops.len(),
    ensures
        acquires(ops.take(n)) <= acquires(ops),
    decreases ops.len(),
{
    if n < ops.len() {
        assert(ops.drop_last().take(n) =~= ops.take(n));
        lemma_acquires_prefix(ops.drop_last(), n);
    } else {
        assert(ops.take(n) =~= ops);
    }
}

/// While every operation goes through an outstanding handle and the count
/// stays below its maximum, the state's count is the number of outstanding
/// handles, and the tag is cleared exactly when none is outstanding.
pub proof fn lemma_count_tracks_handles<T>(data: Arc<T>, ops: Seq<Op<T>>)
    requires
        through_live_handles(ops),
        1 + acquires(ops) <= u64::MAX,
    ensures
        outstanding(ops) >= 0,
        run(fresh(data), ops).strong() == outstanding(ops),
        run(fresh(data), ops).ptr() != 0 <==> outstanding(ops) > 0,
    decreases ops.len(),
{
    if ops.len() > 0 {
        let n = ops.len() - 1;
        let prev = ops.drop_last();
        assert(prev =~= ops.take(n));
        lemma_prefix_through_live(ops, n);
        lemma_count_tracks_handles(data, prev);
        assert(outstanding(ops.take(n)) > 0);
        lemma_run_keeps_wf(fresh(data), prev);
    }
}

/// Handles made and given up in any order, each operation going through an
/// outstanding handle: the count ends equal to the handles outstanding, and
/// the value is reclaimed exactly once, by the release of the last handle,
/// and never while a handle is outstanding.
pub proof fn lemma_single_reclamation<T>(data: Arc<T>, ops: Seq<Op<T>>)
    requires
        through_live_handles(ops),
        1 + acquires(ops) <= u64::MAX,
    ensures
        run(fresh(data), ops).strong() == outstanding(ops),
        forall|i: int|
            0 <= i < ops.len() ==> (#[trigger] reclaims_at(fresh(data), ops, i) <==> (i
                == ops.len() - 1 && outstanding(ops) == 0)),
{
    lemma_count_tracks_handles(data, ops);
    assert forall|i: int| 0 <= i < ops.len() implies (#[trigger] reclaims_at(fresh(data), ops, i)
        <==> (i == ops.len() - 1 && outstanding(ops) == 0)) by {
        let pre = ops.take(i);
        let post = ops.take(i + 1);
        lemma_prefix_through_live(ops, i);
        lemma_prefix_through_live(ops, i + 1);
        lemma_acquires_prefix(ops, i);
        lemma_acquires_prefix(ops, i + 1);
        lemma_count_tracks_handles(data, pre);
        lemma_count_tracks_handles(data, post);
        assert(post.drop_last() =~= pre);
        assert(outstanding(pre) > 0);
        lemma_run_keeps_wf(fresh(data), pre);
        if i + 1 < ops.len() {
            assert(outstanding(ops.take(i + 1)) > 0);
        } else {
            assert(post =~= ops);
        }
    }
}

/// Every value that a run hands out by a read or a read guard, or leaves
/// installed, is the value the cell was made with or one that the run
/// installed: a read never sees anything else.
pub proof fn lemma_reads_see_installed<T>(data: Arc<T>, ops: Seq<Op<T>>)
    ensures
        installed(data, ops, run(fresh(data), ops).value()),
        forall|i: int, v: Arc<T>|
            0 <= i < ops.len() && (ops[i] is Read || ops[i] is Borrow) && output(
                fresh(data),
                ops,
                i,
            ) == Some(v) ==> installed(data, ops, v),
    decreases ops.len(),
{
    if ops.len() > 0 {
        let prev = ops.drop_last();
        lemma_reads_see_installed(data, prev);
        let v = run(fresh(data), ops).value();
        let s = run(fresh(data), prev);
        assert(run(fresh(data), ops) == step(s, ops.last()).0);
        if ops.last() == Op::Replace(v) {
            assert(ops[ops.len() - 1] == Op::Replace(v));
        } else {
            if let Op::Replace(d) = ops.last() {
                assert(d != v);
            }
            assert(s.value() == v);
            assert(installed(data, prev, v));
            if v != data {
                let j = choose|j: int| 0 <= j < prev.len() && prev[j] == Op::Replace(v);
                assert(prev[j] == ops.subrange(0, ops.len() - 1)[j]);
                assert(ops[j] == Op::Replace(v));
            }
        }
    }
    assert forall|i: int, v: Arc<T>|
        0 <= i < ops.len() && (ops[i] is Read || ops[i] is Borrow) && output(fresh(data), ops, i)
            == Some(v) implies
        installed(data, ops, v) by {
        let pre = ops.take(i);
        lemma_reads_see_installed(data, pre);
        assert(output(fresh(data), ops, i) == step(run(fresh(data), pre), ops[i]).1);
        assert(run(fresh(data), pre).value() == v);
        assert(installed(data, pre, v));
        if v != data {
            let j = choose|j: int| 0 <= j < pre.len() && pre[j] == Op::Replace(v);
            assert(pre[j] == ops.subrange(0, i)[j]);
            assert(ops[j] == Op::Replace(v));
        }
    }
}

/// A replace leaves every handle and read guard in place: the count does not
/// change, nothing is reclaimed, and the displaced value, the one a read just
/// before would have handed out, goes back to the caller rather than away.
pub proof fn lemma_replace_spares_readers<T>(s: CellState<T>, data: Arc<T>)
    requires
        s.wf(),
    ensures
        step(s, Op::Replace(data)).0.strong() == s.strong(),
        step(s, Op::Replace(data)).1 == step(s, Op::Read).1,
        step(s, Op::Replace(data)).0.value() == data,
{
}

/// Three replaces and a release through the only handle of a cell made with
/// `init`: the replaces hand back `init`, `a` and `b`, and the release
/// reclaims `c`, the only value it reclaims.
pub proof fn lemma_replacements_in_order<T>(init: Arc<T>, a: Arc<T>, b: Arc<T>, c: Arc<T>)
    ensures
        ({
            let ops = seq![Op::Replace(a), Op::Replace(b), Op::Replace(c), Op::Release];
            &&& output(fresh(init), ops, 0) == Some(init)
            &&& output(fresh(init), ops, 1) == Some(a)
            &&& output(fresh(init), ops, 2) == Some(b)
            &&& output(fresh(init), ops, 3) == Some(c)
            &&& run(fresh(init), ops).ptr() == 0
        }),
{
    let ops = seq![Op::Replace(a), Op::Replace(b), Op::Replace(c), Op::Release];
    assert(ops.take(0) =~= Seq::<Op<T>>::empty());
    assert(ops.take(1).drop_last() =~= ops.take(0));
    assert(ops.take(2).drop_last() =~= ops.take(1));
    assert(ops.take(3).drop_last() =~= ops.take(2));
    assert(ops.take(4) =~= ops);
    assert(ops.drop_last() =~= ops.take(3));
}

} // verus!
