use super::error::OutOfHeapSpaceError;
use vstd::prelude::*;

verus! {

/// A handle to an object on a [`Heap`]: the index of its slot.
#[derive(Clone, Copy, Debug, PartialEq, Eq, Structural)]
pub struct Reference(usize);

impl Reference {
    /// The slot that the reference designates.
    pub closed spec fn index(self) -> nat {
        self.0 as nat
    }
}

/// An arena of objects. Objects are never freed: a [`Reference`] handed out by
/// [`Heap::allocate`] designates the same slot for the heap's whole life.
pub struct Heap<O> {
    slots: Vec<O>,
}

impl<O> View for Heap<O> {
    type V = Seq<O>;

    /// The objects, by slot.
    closed spec fn view(&self) -> Seq<O> {
        self.slots@
    }
}

impl<O> Heap<O> {
    pub fn new() -> (r: Self)
        ensures
            r@ == Seq::<O>::empty(),
    {
        Heap { slots: Vec::new() }
    }

    /// Stores `obj` in a fresh slot. Fails, leaving the heap unchanged, only when the
    /// number of slots has reached `usize::MAX`.
    pub fn allocate(&mut self, obj: O) -> (r: Result<Reference, OutOfHeapSpaceError>)
        ensures
            old(self)@.len() < usize::MAX ==> r is Ok && r->Ok_0.index() == old(self)@.len()
                && final(self)@ == old(self)@.push(obj),
            old(self)@.len() == usize::MAX ==> r is Err && final(self)@ == old(self)@,
    {
        let slot_idx = self.slots.len();
        if slot_idx != usize::MAX {
            self.slots.push(obj);
            Ok(Reference(slot_idx))
        } else {
            Err(OutOfHeapSpaceError::new())
        }
    }

    /// Whether `obj_ref` designates a slot of this heap.
    pub fn contains(&self, obj_ref: Reference) -> (r: bool)
        ensures
            r == (obj_ref.index() < self@.len()),
    {
        obj_ref.0 < self.slots.len()
    }

    /// The object that `obj_ref` designates.
    pub fn resolve(&self, obj_ref: Reference) -> (r: &O)
        requires
            obj_ref.index() < self@.len(),
        ensures
            *r == self@[obj_ref.index() as int],
    {
        &self.slots[obj_ref.0]
    }

    /// The object that `obj_ref` designates, for writing.
    pub fn resolve_mut(&mut self, obj_ref: Reference) -> (r: &mut O)
        requires
            obj_ref.index() < old(self)@.len(),
        ensures
            *r == old(self)@[obj_ref.index() as int],
            final(self)@ == old(self)@.update(obj_ref.index() as int, *final(r)),
    {
        &mut self.slots[obj_ref.0]
    }
}

impl<O> Default for Heap<O> {
    fn default() -> (r: Self)
        ensures
            r@ == Seq::<O>::empty(),
    {
        Self::new()
    }
}

/// What a heap holds after `allocate` succeeded: the new object is found at the
/// reference it returned, and every object allocated before is found where it was.
pub proof fn lemma_allocate_then_resolve<O>(before: Seq<O>, after: Seq<O>, obj: O, new_ref: Reference, old_ref: Reference)
    requires
        new_ref.index() == before.len(),
        after == before.push(obj),
        old_ref.index() < before.len(),
    ensures
        after[new_ref.index() as int] == obj,
        after[old_ref.index() as int] == before[old_ref.index() as int],
        new_ref != old_ref,
{
}

} // verus!
