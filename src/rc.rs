//! Shared ownership by reference counting. Blocks live in an arena, an
//! [`RcHeap`]; an [`Rc`] is a handle to one block, and every handle of a block
//! is counted in the block itself. Cloning a handle counts one more; releasing
//! one counts one fewer, and the release of the last handle frees the block and
//! drops its value.
use std::marker::PhantomData;
use vstd::prelude::*;
use crate::cell::Cell;

verus! {

/// One block: the shared value and the number of handles to it.
struct RcInner<T> {
    value: T,
    references: Cell<usize>,
}

/// The arena that holds the blocks of a family of [`Rc`] handles. A freed
/// block leaves an empty slot behind, so no two blocks ever share a slot.
pub struct RcHeap<T> {
    blocks: Vec<Option<RcInner<T>>>,
}

/// A handle to a block of an [`RcHeap`].
pub struct Rc<T> {
    slot: usize,
    marker: PhantomData<T>,
}

/// The model of an arena: one entry per slot ever allocated, holding the value
/// and the handle count of a live block, or nothing once the block is freed.
pub type HeapModel<T> = Seq<Option<(T, nat)>>;

/// Slot `i` holds a live block.
pub open spec fn live<T>(m: HeapModel<T>, i: int) -> bool {
    0 <= i < m.len() && m[i] is Some
}

/// The value of the block in slot `i`.
pub open spec fn value_of<T>(m: HeapModel<T>, i: int) -> T {
    let (v, _) = m[i]->0;
    v
}

/// The handle count of the block in slot `i`.
pub open spec fn count_of<T>(m: HeapModel<T>, i: int) -> nat {
    let (_, c) = m[i]->0;
    c
}

/// The arena after a new block holding `v` with one handle is allocated.
pub open spec fn allocated<T>(m: HeapModel<T>, v: T) -> HeapModel<T> {
    m.push(Some((v, 1nat)))
}

/// The arena after a handle of the block in slot `i` is cloned.
pub open spec fn cloned<T>(m: HeapModel<T>, i: int) -> HeapModel<T> {
    m.update(i, Some((value_of(m, i), count_of(m, i) + 1)))
}

/// The arena after a handle of the block in slot `i` is released: the block
/// is freed when this was its last handle.
pub open spec fn released<T>(m: HeapModel<T>, i: int) -> HeapModel<T> {
    if count_of(m, i) == 1 {
        m.update(i, None)
    } else {
        m.update(i, Some((value_of(m, i), (count_of(m, i) - 1) as nat)))
    }
}

/// The arena after `n` clones of a handle of the block in slot `i`.
pub open spec fn cloned_n<T>(m: HeapModel<T>, i: int, n: nat) -> HeapModel<T>
    decreases n,
{
    if n == 0 {
        m
    } else {
        cloned(cloned_n(m, i, (n - 1) as nat), i)
    }
}

/// The arena after `k` releases of handles of the block in slot `i`.
pub open spec fn released_n<T>(m: HeapModel<T>, i: int, k: nat) -> HeapModel<T>
    decreases k,
{
    if k == 0 {
        m
    } else {
        released(released_n(m, i, (k - 1) as nat), i)
    }
}

/// `n` clones change only the count of the block in slot `i`, by `n`.
proof fn lemma_cloned_n<T>(m: HeapModel<T>, i: int, n: nat)
    requires
        live(m, i),
    ensures
        cloned_n(m, i, n) == m.update(i, Some((value_of(m, i), count_of(m, i) + n))),
    decreases n,
{
    if n > 0 {
        lemma_cloned_n(m, i, (n - 1) as nat);
        assert(cloned_n(m, i, n) =~= m.update(i, Some((value_of(m, i), count_of(m, i) + n))));
    } else {
        assert(m.update(i, Some((value_of(m, i), count_of(m, i)))) =~= m);
    }
}

/// Fewer releases than the block has handles change only its count, by
/// their number.
proof fn lemma_released_n<T>(m: HeapModel<T>, i: int, k: nat)
    requires
        live(m, i),
        k < count_of(m, i),
    ensures
        released_n(m, i, k) == m.update(i, Some((value_of(m, i), (count_of(m, i) - k) as nat))),
    decreases k,
{
    if k > 0 {
        lemma_released_n(m, i, (k - 1) as nat);
        assert(released_n(m, i, k) =~= m.update(
            i,
            Some((value_of(m, i), (count_of(m, i) - k) as nat)),
        ));
    } else {
        assert(m.update(i, Some((value_of(m, i), count_of(m, i)))) =~= m);
    }
}

/// Reference counting of a fresh block: after `n` clones it counts `1 + n`
/// handles; each of the first `n` releases that follow leaves it live with
/// one handle fewer, so none of them frees it; the release after those frees
/// it, and touches no other slot.
pub proof fn lemma_count_accounting<T>(m: HeapModel<T>, i: int, n: nat)
    requires
        live(m, i),
        count_of(m, i) == 1,
    ensures
        live(cloned_n(m, i, n), i),
        count_of(cloned_n(m, i, n), i) == 1 + n,
        forall|k: nat|
            k <= n ==> {
                &&& live(#[trigger] released_n(cloned_n(m, i, n), i, k), i)
                &&& count_of(released_n(cloned_n(m, i, n), i, k), i) == 1 + n - k
            },
        released_n(cloned_n(m, i, n), i, n + 1) == m.update(i, None),
{
    lemma_cloned_n(m, i, n);
    let c = cloned_n(m, i, n);
    assert forall|k: nat| k <= n implies {
        &&& live(#[trigger] released_n(c, i, k), i)
        &&& count_of(released_n(c, i, k), i) == 1 + n - k
    } by {
        lemma_released_n(c, i, k);
    }
    lemma_released_n(c, i, n);
    assert(released_n(c, i, n + 1) =~= m.update(i, None));
}

/// Each allocation takes a slot that no block held before: a new handle never
/// refers to the block of an existing one, and two allocations in a row give
/// handles to different blocks.
pub proof fn lemma_fresh_blocks<T>(m: HeapModel<T>, v1: T, v2: T)
    ensures
        forall|i: int| live(m, i) ==> i != m.len(),
        live(allocated(m, v1), m.len() as int),
        live(allocated(allocated(m, v1), v2), allocated(m, v1).len() as int),
        allocated(m, v1).len() != m.len(),
{
}

impl<T> View for RcHeap<T> {
    type V = HeapModel<T>;

    closed spec fn view(&self) -> HeapModel<T> {
        Seq::new(
            self.blocks@.len(),
            |i: int|
                match self.blocks@[i] {
                    Some(b) => Some((b.value, b.references@ as nat)),
                    None => None,
                },
        )
    }
}

impl<T> RcHeap<T> {
    /// Every live block counts at least one handle.
    pub closed spec fn wf(&self) -> bool {
        forall|i: int|
            0 <= i < self.blocks@.len() && (#[trigger] self.blocks@[i]) is Some
                ==> self.blocks@[i]->0.references@ >= 1
    }

    /// An arena with no block.
    pub fn new() -> (r: Self)
        ensures
            r.wf(),
            r@ == Seq::<Option<(T, nat)>>::empty(),
    {
        let r = RcHeap { blocks: Vec::new() };
        assert(r@ =~= Seq::<Option<(T, nat)>>::empty());
        r
    }

    /// The number of handles to the block of `rc`.
    pub fn count(&self, rc: &Rc<T>) -> (r: usize)
        requires
            live(self@, rc.id()),
        ensures
            r == count_of(self@, rc.id()),
    {
        self.blocks[rc.slot].as_ref().unwrap().references.get()
    }
}

impl<T> Rc<T> {
    /// The slot of the block this handle refers to.
    pub closed spec fn id(&self) -> int {
        self.slot as int
    }

    /// Allocates a block in `heap` holding `value`, with this one handle.
    pub fn new(heap: &mut RcHeap<T>, value: T) -> (r: Self)
        requires
            old(heap).wf(),
        ensures
            final(heap).wf(),
            final(heap)@ == allocated(old(heap)@, value),
            r.id() == old(heap)@.len(),
    {
        let slot = heap.blocks.len();
        heap.blocks.push(Some(RcInner { value, references: Cell::new(1) }));
        assert(heap@ =~= allocated(old(heap)@, value));
        Rc { slot, marker: PhantomData }
    }

    /// Whether the two handles refer to the same block.
    pub fn ptr_eq(rc1: &Self, rc2: &Self) -> (r: bool)
        ensures
            r == (rc1.id() == rc2.id()),
    {
        rc1.slot == rc2.slot
    }

    /// A new handle to the same block, counted in it.
    pub fn clone(&self, heap: &mut RcHeap<T>) -> (r: Self)
        requires
            old(heap).wf(),
            live(old(heap)@, self.id()),
            count_of(old(heap)@, self.id()) < usize::MAX,
        ensures
            final(heap).wf(),
            final(heap)@ == cloned(old(heap)@, self.id()),
            r.id() == self.id(),
    {
        let ghost before = heap@;
        let block = &mut heap.blocks[self.slot];
        match block {
            Some(inner) => {
                let n = inner.references.get();
                inner.references.set(n + 1);
            },
            None => {},
        }
        assert(heap@ =~= cloned(before, self.id()));
        Rc { slot: self.slot, marker: PhantomData }
    }

    /// Read access to the value of the block.
    pub fn value<'a>(&self, heap: &'a RcHeap<T>) -> (r: &'a T)
        requires
            live(heap@, self.id()),
        ensures
            *r == value_of(heap@, self.id()),
    {
        &heap.blocks[self.slot].as_ref().unwrap().value
    }

    /// Gives the handle up. When it was the last one, the block is freed and
    /// its value dropped, and the result is true; otherwise the block counts
    /// one handle fewer, and the result is false.
    pub fn release(self, heap: &mut RcHeap<T>) -> (freed: bool)
        requires
            old(heap).wf(),
            live(old(heap)@, self.id()),
        ensures
            final(heap).wf(),
            final(heap)@ == released(old(heap)@, self.id()),
            freed == (count_of(old(heap)@, self.id()) == 1),
    {
        let ghost before = heap@;
        let n = heap.blocks[self.slot].as_ref().unwrap().references.get();
        if n == 1 {
            heap.blocks[self.slot] = None;
            assert(heap@ =~= released(before, self.id()));
            true
        } else {
            let block = &mut heap.blocks[self.slot];
            match block {
                Some(inner) => {
                    inner.references.set(n - 1);
                },
                None => {},
            }
            assert(heap@ =~= released(before, self.id()));
            false
        }
    }
}

} // verus!
