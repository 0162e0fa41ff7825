//! The state that one cell's handles share: the packed word and the value it
//! tags. Each operation on a cell is written as one step of this state, taken
//! while holding the cell's lock.
use std::sync::Arc;
use vstd::prelude::*;
use crate::packed::{
    add_one_strong, pack, pack_word, ptr_bits, ptr_of, strong_bits, strong_of, sub_one_strong,
    with_ptr,
};

verus! {

/// Relies on `Arc::clone`: the new handle points to the same value.
#[verifier::external_body]
pub(crate) fn share<T>(a: &Arc<T>) -> (r: Arc<T>)
    ensures
        r == *a,
{
    Arc::clone(a)
}

/// The tag given to a value installed over the tag `p`: never zero, and
/// different from `p`.
pub open spec fn next_tag(p: u64) -> u64 {
    if p == u64::MAX {
        1
    } else {
        (p + 1) as u64
    }
}

/// One operation on a cell, as the shared state sees it.
pub enum Op<T> {
    /// A new handle is made.
    Acquire,
    /// A handle or a read guard is given up.
    Release,
    /// The current value is read.
    Read,
    /// A read guard is taken: a new handle, and the current value.
    Borrow,
    /// A new value is installed.
    Replace(Arc<T>),
}

/// The packed word of a cell and the value it tags. The state keeps a value
/// for as long as it lives: reclaiming clears the tag and hands the value to
/// the releaser, and what stays behind goes with the shared allocation.
pub struct CellState<T> {
    pub word: u128,
    pub value: Arc<T>,
}

/// The state can take one more handle: its value is not reclaimed and the
/// count is below its maximum.
pub open spec fn can_acquire<T>(s: CellState<T>) -> bool {
    s.ptr() != 0 && s.strong() < u64::MAX
}

/// The state that `op` leads `s` to, and the value that `op` hands back:
/// the value read or borrowed, the value displaced by a new one, or the
/// value reclaimed when the last handle is given up. A state that cannot take
/// one more handle (see `can_acquire`) keeps its count on an acquire or a
/// borrow, and one with no handle left gives none up.
pub open spec fn step<T>(s: CellState<T>, op: Op<T>) -> (CellState<T>, Option<Arc<T>>) {
    match op {
        Op::Acquire => if can_acquire(s) {
            (CellState { word: pack((s.strong() + 1) as u64, s.ptr()), value: s.value }, None)
        } else {
            (s, None)
        },
        Op::Release => if s.strong() == 0 {
            (s, None)
        } else if s.strong() == 1 {
            (CellState { word: pack(0, 0), value: s.value }, Some(s.value))
        } else {
            (CellState { word: pack((s.strong() - 1) as u64, s.ptr()), value: s.value }, None)
        },
        Op::Read => (s, Some(s.value)),
        Op::Borrow => if can_acquire(s) {
            (
                CellState { word: pack((s.strong() + 1) as u64, s.ptr()), value: s.value },
                Some(s.value),
            )
        } else {
            (s, Some(s.value))
        },
        Op::Replace(data) => (
            CellState { word: pack(s.strong(), next_tag(s.ptr())), value: data },
            Some(s.value),
        ),
    }
}

impl<T> CellState<T> {
    /// The number of outstanding handles.
    pub open spec fn strong(&self) -> u64 {
        strong_of(self.word)
    }

    /// The tag of the installed value; zero once the value is reclaimed.
    pub open spec fn ptr(&self) -> u64 {
        ptr_of(self.word)
    }

    /// The installed value.
    pub open spec fn value(&self) -> Arc<T> {
        self.value
    }

    /// While any handle is outstanding the tag is not zero: the value is
    /// reclaimed only once the count is zero.
    pub open spec fn wf(&self) -> bool {
        self.strong() > 0 ==> self.ptr() != 0
    }

    /// A state with one handle and `data` installed under the tag 1.
    pub fn new(data: Arc<T>) -> (s: Self)
        ensures
            s.wf(),
            s.strong() == 1,
            s.ptr() == 1,
            s.value() == data,
    {
        CellState { word: pack_word(1, 1), value: data }
    }

    /// The number of outstanding handles.
    pub fn strong_count(&self) -> (r: u64)
        ensures
            r == self.strong(),
    {
        strong_bits(self.word)
    }

    /// The tag of the installed value.
    pub fn ptr_tag(&self) -> (r: u64)
        ensures
            r == self.ptr(),
    {
        ptr_bits(self.word)
    }

    /// A new handle to the installed value.
    pub fn current(&self) -> (r: Arc<T>)
        ensures
            r == self.value(),
    {
        share(&self.value)
    }

    /// Adds one handle to a state whose count is below its maximum.
    pub fn increment_strong(&mut self)
        requires
            old(self).strong() < u64::MAX,
        ensures
            final(self).word == pack((old(self).strong() + 1) as u64, old(self).ptr()),
            final(self).strong() == old(self).strong() + 1,
            final(self).ptr() == old(self).ptr(),
            final(self).value() == old(self).value(),
    {
        self.word = add_one_strong(self.word);
    }

    /// Takes one handle and returns how many are left.
    pub fn decrement_strong(&mut self) -> (r: u64)
        requires
            old(self).strong() > 0,
        ensures
            r == old(self).strong() - 1,
            final(self).word == pack(r, old(self).ptr()),
            final(self).strong() == r,
            final(self).ptr() == old(self).ptr(),
            final(self).value() == old(self).value(),
    {
        self.word = sub_one_strong(self.word);
        strong_bits(self.word)
    }

    /// Clears the tag and hands out the value it tagged.
    pub fn set_ptr_null(&mut self) -> (r: Arc<T>)
        ensures
            r == old(self).value(),
            final(self).word == pack(old(self).strong(), 0),
            final(self).strong() == old(self).strong(),
            final(self).ptr() == 0,
            final(self).value() == old(self).value(),
    {
        self.word = with_ptr(self.word, 0);
        self.current()
    }

    /// Installs `data` under a fresh tag and returns the value it displaces.
    pub fn set_ptr(&mut self, data: Arc<T>) -> (r: Arc<T>)
        ensures
            r == old(self).value(),
            final(self).word == pack(old(self).strong(), next_tag(old(self).ptr())),
            final(self).strong() == old(self).strong(),
            final(self).ptr() == next_tag(old(self).ptr()),
            final(self).value() == data,
    {
        let p = ptr_bits(self.word);
        let next: u64 = if p == u64::MAX {
            1
        } else {
            p + 1
        };
        self.word = with_ptr(self.word, next);
        let displaced = share(&self.value);
        self.value = data;
        displaced
    }

    /// Gives up one handle. When it was the last, the tag is cleared and the
    /// value is handed back; otherwise nothing is returned.
    pub fn release(&mut self) -> (r: Option<Arc<T>>)
        requires
            old(self).wf(),
        ensures
            final(self).wf(),
            (*final(self), r) == step(*old(self), Op::Release),
    {
        if self.strong_count() == 0 {
            return None;
        }
        let left = self.decrement_strong();
        if left > 0 {
            return None;
        }
        Some(self.set_ptr_null())
    }

    /// Takes one more handle when the state can take it (see `can_acquire`).
    fn acquire(&mut self)
        requires
            old(self).wf(),
        ensures
            final(self).wf(),
            *final(self) == step(*old(self), Op::Acquire).0,
    {
        if self.ptr_tag() != 0 && self.strong_count() < u64::MAX {
            self.increment_strong();
        }
    }

    /// Takes the step `op`, keeping the state well formed.
    pub fn apply(&mut self, op: Op<T>) -> (r: Option<Arc<T>>)
        requires
            old(self).wf(),
        ensures
            final(self).wf(),
            (*final(self), r) == step(*old(self), op),
    {
        match op {
            Op::Acquire => {
                self.acquire();
                None
            },
            Op::Release => self.release(),
            Op::Read => Some(self.current()),
            Op::Borrow => {
                self.acquire();
                Some(self.current())
            },
            Op::Replace(data) => Some(self.set_ptr(data)),
        }
    }
}

} // verus!
