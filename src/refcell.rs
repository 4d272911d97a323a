//! A container whose borrows are checked at run time. The cell records in a
//! state tag whether it is unused, read by some number of shared guards, or
//! written through one exclusive guard. A guard is handed back to the cell
//! by its `release` at the end of its scope, which restores the tag.
use std::marker::PhantomData;
use vstd::prelude::*;
use crate::cell::Cell;

verus! {

/// The borrow state of a [`RefCell`].
#[derive(Clone, Copy, Debug, PartialEq, Eq, Structural)]
pub enum RefState {
    /// No guard is outstanding.
    Unused,
    /// This many shared guards are outstanding (at least one).
    Shared(usize),
    /// One exclusive guard is outstanding.
    Exclusive,
}

/// A value together with the state of its borrows.
#[derive(Debug)]
pub struct RefCell<T> {
    value: T,
    state: Cell<RefState>,
}

/// Permission to read the value of a [`RefCell`], recorded in its state.
#[derive(Debug)]
pub struct Ref<T> {
    marker: PhantomData<T>,
}

/// Permission to read and write the value of a [`RefCell`], recorded in its
/// state.
#[derive(Debug)]
pub struct RefMut<T> {
    marker: PhantomData<T>,
}

/// A request in state `s` is granted: one for shared access (`shared`) unless
/// the state is exclusive, one for exclusive access only in the unused state.
pub open spec fn granted(s: RefState, shared: bool) -> bool {
    if shared {
        s != RefState::Exclusive
    } else {
        s == RefState::Unused
    }
}

/// The state after a request for shared access in state `s`.
pub open spec fn after_borrow(s: RefState) -> RefState {
    match s {
        RefState::Unused => RefState::Shared(1),
        RefState::Shared(n) => RefState::Shared((n + 1) as usize),
        RefState::Exclusive => RefState::Exclusive,
    }
}

/// The state after a request for exclusive access in state `s`.
pub open spec fn after_borrow_mut(s: RefState) -> RefState {
    if s == RefState::Unused {
        RefState::Exclusive
    } else {
        s
    }
}

/// The state after a shared guard is handed back in the shared state `s`.
pub open spec fn after_release_shared(s: RefState) -> RefState {
    if s == RefState::Shared(1) {
        RefState::Unused
    } else {
        RefState::Shared((s->0 - 1) as usize)
    }
}

/// The state after a run of requests, `true` for shared access and `false`
/// for exclusive access, starting in state `s`.
pub open spec fn after_requests(s: RefState, requests: Seq<bool>) -> RefState
    decreases requests.len(),
{
    if requests.len() == 0 {
        s
    } else {
        let t = after_requests(s, requests.drop_last());
        if requests.last() {
            after_borrow(t)
        } else {
            after_borrow_mut(t)
        }
    }
}

/// While an exclusive guard is outstanding, every request, shared or
/// exclusive, is refused and leaves the state exclusive.
pub proof fn lemma_exclusive_blocks(requests: Seq<bool>)
    ensures
        after_requests(RefState::Exclusive, requests) == RefState::Exclusive,
        forall|j: int|
            0 <= j < requests.len() ==> !granted(
                after_requests(RefState::Exclusive, #[trigger] requests.take(j)),
                requests[j],
            ),
    decreases requests.len(),
{
    if requests.len() > 0 {
        let before = requests.drop_last();
        lemma_exclusive_blocks(before);
        assert forall|j: int| 0 <= j < requests.len() implies !granted(
            after_requests(RefState::Exclusive, #[trigger] requests.take(j)),
            requests[j],
        ) by {
            if j < before.len() {
                assert(requests.take(j) =~= before.take(j));
            } else {
                assert(requests.take(j) =~= before);
            }
        }
    }
}

impl<T> RefCell<T> {
    /// The value held.
    pub closed spec fn value(&self) -> T {
        self.value
    }

    /// The borrow state.
    pub closed spec fn state_of(&self) -> RefState {
        self.state@
    }

    /// A shared state counts at least one guard.
    pub open spec fn wf(&self) -> bool {
        self.state_of() matches RefState::Shared(n) ==> n >= 1
    }

    /// A cell holding `value`, with no guard outstanding.
    pub fn new(value: T) -> (r: Self)
        ensures
            r.wf(),
            r.value() == value,
            r.state_of() == RefState::Unused,
    {
        RefCell { value, state: Cell::new(RefState::Unused) }
    }

    /// The borrow state.
    pub fn state(&self) -> (r: RefState)
        ensures
            r == self.state_of(),
    {
        self.state.get()
    }

    /// Asks for shared access. Granted unless an exclusive guard is
    /// outstanding; a grant counts one more shared guard, a refusal leaves the
    /// state as it was.
    pub fn borrow(&mut self) -> (r: Option<Ref<T>>)
        requires
            old(self).wf(),
            old(self).state_of() != RefState::Shared(usize::MAX),
        ensures
            final(self).wf(),
            final(self).value() == old(self).value(),
            r is Some <==> granted(old(self).state_of(), true),
            final(self).state_of() == after_borrow(old(self).state_of()),
    {
        match self.state.get() {
            RefState::Unused => {
                self.state.set(RefState::Shared(1));
                Some(Ref { marker: PhantomData })
            },
            RefState::Shared(n) => {
                self.state.set(RefState::Shared(n + 1));
                Some(Ref { marker: PhantomData })
            },
            RefState::Exclusive => None,
        }
    }

    /// Asks for exclusive access. Granted only when no guard is outstanding;
    /// a refusal leaves the state as it was.
    pub fn borrow_mut(&mut self) -> (r: Option<RefMut<T>>)
        requires
            old(self).wf(),
        ensures
            final(self).wf(),
            final(self).value() == old(self).value(),
            r is Some <==> granted(old(self).state_of(), false),
            final(self).state_of() == after_borrow_mut(old(self).state_of()),
    {
        match self.state.get() {
            RefState::Unused => {
                self.state.set(RefState::Exclusive);
                Some(RefMut { marker: PhantomData })
            },
            RefState::Shared(_) => None,
            RefState::Exclusive => None,
        }
    }
}

impl<T> Ref<T> {
    /// Reads the value of `cell` while this guard is outstanding.
    pub fn get<'a>(&self, cell: &'a RefCell<T>) -> (r: &'a T)
        requires
            cell.state_of() is Shared,
        ensures
            *r == cell.value(),
    {
        &cell.value
    }

    /// Hands the guard back: one shared guard fewer, and the cell is unused
    /// once the last one is back.
    pub fn release(self, cell: &mut RefCell<T>)
        requires
            old(cell).wf(),
            old(cell).state_of() is Shared,
        ensures
            final(cell).wf(),
            final(cell).value() == old(cell).value(),
            final(cell).state_of() == after_release_shared(old(cell).state_of()),
    {
        match cell.state.get() {
            RefState::Shared(n) => {
                if n == 1 {
                    cell.state.set(RefState::Unused);
                } else {
                    cell.state.set(RefState::Shared(n - 1));
                }
            },
            // ruled out by the precondition
            RefState::Unused => {},
            RefState::Exclusive => {},
        }
    }
}

impl<T> RefMut<T> {
    /// Reads the value of `cell` while this guard is outstanding.
    pub fn get<'a>(&self, cell: &'a RefCell<T>) -> (r: &'a T)
        requires
            cell.state_of() == RefState::Exclusive,
        ensures
            *r == cell.value(),
    {
        &cell.value
    }

    /// Gives write access to the value of `cell` while this guard is
    /// outstanding; the state is left as it is.
    pub fn get_mut<'a>(&self, cell: &'a mut RefCell<T>) -> (r: &'a mut T)
        requires
            old(cell).state_of() == RefState::Exclusive,
        ensures
            *r == old(cell).value(),
            final(cell).value() == *final(r),
            final(cell).state_of() == old(cell).state_of(),
    {
        &mut cell.value
    }

    /// Hands the guard back: the cell is unused again.
    pub fn release(self, cell: &mut RefCell<T>)
        requires
            old(cell).state_of() == RefState::Exclusive,
        ensures
            final(cell).wf(),
            final(cell).value() == old(cell).value(),
            final(cell).state_of() == RefState::Unused,
    {
        cell.state.set(RefState::Unused);
    }
}

} // verus!
