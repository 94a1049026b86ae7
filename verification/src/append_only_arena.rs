//! An append-only arena of boxed values. A value, once pushed, keeps its
//! index and its contents for the lifetime of the arena: the arena offers no
//! way to remove, replace or reorder what it holds.

use vstd::prelude::*;

verus! {

/// A handle to a value of an arena, valid for the lifetime of that arena.
#[derive(Clone, Copy, Debug, PartialEq, Eq, Structural)]
pub struct StablePtr {
    pub index: u32,
}

pub struct AppendOnlyBoxArena<T> {
    items: Vec<Box<T>>,
}

impl<T> View for AppendOnlyBoxArena<T> {
    type V = Seq<T>;

    closed spec fn view(&self) -> Seq<T> {
        self.items@.map_values(|item: Box<T>| *item)
    }
}

impl<T> AppendOnlyBoxArena<T> {
    pub fn new() -> (r: Self)
        ensures
            r@ == Seq::<T>::empty(),
    {
        let r = AppendOnlyBoxArena { items: Vec::new() };
        assert(r@ =~= Seq::<T>::empty());
        r
    }

    /// Appends a value and returns its index, truncated to 32 bits.
    pub fn push(&mut self, value: T) -> (r: u32)
        ensures
            final(self)@ == old(self)@.push(value),
            r == old(self)@.len() as u32,
    {
        let index = self.items.len() as u32;
        self.items.push(Box::new(value));
        assert(final(self)@ =~= old(self)@.push(value));
        index
    }

    /// The handle of the value at `index`.
    pub fn stable_ptr(&self, index: u32) -> (r: StablePtr)
        requires
            index < self@.len(),
        ensures
            r.index == index,
    {
        StablePtr { index }
    }

    /// The value that a handle of this arena designates.
    pub fn get(&self, ptr: StablePtr) -> (r: &T)
        requires
            ptr.index < self@.len(),
        ensures
            *r == self@[ptr.index as int],
    {
        &*self.items[ptr.index as usize]
    }

    pub fn len(&self) -> (r: usize)
        ensures
            r == self@.len(),
    {
        self.items.len()
    }
}

/// Pushing never disturbs a value pushed before: every index below the old
/// length designates the same value afterwards.
pub proof fn lemma_push_keeps_earlier_values<T>(before: Seq<T>, value: T, index: int)
    requires
        0 <= index < before.len(),
    ensures
        before.push(value)[index] == before[index],
        before.push(value).len() == before.len() + 1,
{
}

} // verus!
