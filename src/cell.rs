//! The cell and its read guard. All handles of one cell share one state
//! behind a lock, and each call below takes one step of that state while it
//! holds the lock. Verus sees the state only through the lock's invariant, so
//! the contracts here say what holds of a step's result from any well-formed
//! state; they do not fix which state that was. The facts about runs of steps
//! in `history` are proved of the steps, not of calls through handles.
use std::sync::Arc;
use vstd::prelude::*;
use vstd::rwlock::{RwLock, RwLockPredicate};
use crate::state::{share, step, CellState, Op};

verus! {

/// What the lock keeps true of the state it guards.
pub struct WellFormed;

impl<T> RwLockPredicate<CellState<T>> for WellFormed {
    open spec fn inv(self, s: CellState<T>) -> bool {
        s.wf()
    }
}

/// The allocation that all handles of one cell share.
pub struct ArcCellInner<T> {
    state: RwLock<CellState<T>, WellFormed>,
}

impl<T> ArcCellInner<T> {
    /// A shared state with one handle and `data` installed.
    fn new(data: Arc<T>) -> Self {
        ArcCellInner { state: RwLock::new(CellState::new(data), Ghost(WellFormed)) }
    }

    /// Takes the step `op` on the shared state. Other handles may have taken
    /// any steps before, so the clause fixes the kind of result (what `op`
    /// hands back from some well-formed state), not its value.
    fn apply(&self, op: Op<T>) -> (r: Option<Arc<T>>)
        ensures
            exists|s: CellState<T>| s.wf() && r == #[trigger] step(s, op).1,
    {
        let (mut s, handle) = self.state.acquire_write();
        let ghost before = s;
        let r = s.apply(op);
        handle.release_write(s);
        assert(before.wf() && r == step(before, op).1);
        r
    }

    /// The count of the shared state at the moment of the read. Any count
    /// meets the clause; it only names where the number comes from.
    fn strong_count(&self) -> (r: u64)
        ensures
            exists|s: CellState<T>| s.wf() && r == #[trigger] s.strong(),
    {
        let handle = self.state.acquire_read();
        let r = handle.borrow().strong_count();
        let ghost seen = handle.view();
        handle.release_read();
        assert(seen.wf() && r == seen.strong());
        r
    }
}

/// A handle to a shared, hot-swappable cell. A handle is given up with
/// `release`; one that is only dropped keeps its unit of the count, so the
/// value then stays installed until the shared allocation itself goes.
pub struct ArcCell<T> {
    inner: Arc<ArcCellInner<T>>,
}

/// A read guard: it holds one unit of the cell's handle count, and the value
/// that was installed when it was taken.
pub struct ArcRef<T> {
    inner: Arc<ArcCellInner<T>>,
    value: Arc<T>,
}

impl<T> ArcCell<T> {
    /// The shared allocation this handle refers to.
    pub closed spec fn shared(&self) -> Arc<ArcCellInner<T>> {
        self.inner
    }

    fn from_inner(inner: Arc<ArcCellInner<T>>) -> (r: Self)
        ensures
            r.shared() == inner,
    {
        ArcCell { inner }
    }

    /// Makes a cell with one handle and `data` installed.
    pub fn new(data: Box<T>) -> (r: ArcCell<T>) {
        let value = Arc::new(*data);
        ArcCell::from_inner(Arc::new(ArcCellInner::new(value)))
    }

    /// Installs `data` and hands back the value it displaces. Which value
    /// that is depends on the steps other handles took; the contract does
    /// not fix it.
    pub fn set(&self, data: Box<T>) -> (r: Arc<T>) {
        let value = Arc::new(*data);
        let displaced = self.inner.apply(Op::Replace(value));
        displaced.unwrap()
    }

    /// Takes a read guard: in one step, one more unit of the handle count and
    /// the value installed at that moment, which the guard then holds. Which
    /// value that is depends on the steps other handles took.
    pub fn get(&self) -> (r: ArcRef<T>)
        ensures
            r.shared() == self.shared(),
    {
        let value = self.inner.apply(Op::Borrow);
        ArcRef { inner: share(&self.inner), value: value.unwrap() }
    }

    /// The number of outstanding handles and read guards; a snapshot that
    /// other handles may already have changed, so no value is promised.
    pub fn strong_count(&self) -> (r: u64) {
        self.inner.strong_count()
    }

    /// Makes another handle to the same cell.
    pub fn clone(&self) -> (r: ArcCell<T>)
        ensures
            r.shared() == self.shared(),
    {
        let _ = self.inner.apply(Op::Acquire);
        ArcCell::from_inner(share(&self.inner))
    }

    /// Gives this handle up. When it is the last, the value is reclaimed and
    /// handed back; whether it is the last depends on the other handles, so
    /// the contract does not say.
    pub fn release(self) -> (r: Option<Arc<T>>) {
        self.inner.apply(Op::Release)
    }
}

impl<T> ArcRef<T> {
    /// The shared allocation of the cell the guard was taken from.
    pub closed spec fn shared(&self) -> Arc<ArcCellInner<T>> {
        self.inner
    }

    /// The value that was installed when the guard was taken.
    pub closed spec fn held(&self) -> Arc<T> {
        self.value
    }

    /// The value that was installed when the guard was taken.
    pub fn value(&self) -> (r: Arc<T>)
        ensures
            r == self.held(),
    {
        share(&self.value)
    }

    /// Gives the guard's unit of the handle count back. When it is the last
    /// unit, the cell's value is reclaimed and handed back; whether it is the
    /// last depends on the other handles, so the contract does not say.
    pub fn release(self) -> (r: Option<Arc<T>>) {
        self.inner.apply(Op::Release)
    }
}

} // verus!
