//! The state of a dynamically built WinRT vector and of its iterators: the
//! stored item words, what each `IVector`/`IVectorView`/`IIterator` method
//! does to them, which stored items must be released afterwards and which
//! change notification follows. Storing, copying out and releasing an item
//! word is native work of the caller.

use vstd::prelude::*;

verus! {

pub const S_OK: i32 = 0;

/// The HRESULT of an index outside the collection.
pub const E_BOUNDS: i32 = -2147483637i32;

/// The HRESULT of a method that the element storage does not support.
pub const E_NOTIMPL: i32 = -2147467263i32;

pub const COLLECTION_CHANGE_RESET: i32 = 0;

pub const COLLECTION_CHANGE_ITEM_INSERTED: i32 = 1;

pub const COLLECTION_CHANGE_ITEM_REMOVED: i32 = 2;

pub const COLLECTION_CHANGE_ITEM_CHANGED: i32 = 3;

/// The notification that follows a mutation.
#[derive(Clone, Copy, Debug, PartialEq, Eq, Structural)]
pub struct VectorChange {
    pub collection_change: i32,
    pub index: u32,
}

/// A value word reduced to the bytes that an element of `element_size` bytes
/// occupies; words of pointer width or more are kept whole.
pub open spec fn spec_normalize_value_word(value: usize, element_size: usize) -> usize {
    if element_size == 0 || element_size >= usize::BITS / 8 {
        value
    } else {
        value & (((1usize << (element_size * 8) as usize) - 1) as usize)
    }
}

pub fn normalize_value_word(value: usize, element_size: usize) -> (r: usize)
    ensures
        r == spec_normalize_value_word(value, element_size),
{
    if element_size == 0 || element_size >= (usize::BITS / 8) as usize {
        value
    } else {
        let bits = element_size * 8;
        assert(bits < usize::BITS);
        let one: usize = 1;
        assert(one << bits >= 1) by (bit_vector)
            requires
                bits < usize::BITS,
                one == 1,
        ;
        value & ((one << bits) - 1)
    }
}

/// The item words that `get_many` copies out: from `start`, at most
/// `capacity` of them; none when `start` is past the end.
pub open spec fn spec_window(items: Seq<usize>, start: int, capacity: int) -> Seq<usize> {
    if start > items.len() {
        Seq::empty()
    } else if capacity < items.len() - start {
        items.subrange(start, start + capacity)
    } else {
        items.subrange(start, items.len() as int)
    }
}

fn window(items: &Vec<usize>, start: usize, capacity: usize) -> (r: Vec<usize>)
    ensures
        r@ == spec_window(items@, start as int, capacity as int),
{
    let length = items.len();
    if start > length {
        return Vec::new();
    }
    let count = if capacity < length - start {
        capacity
    } else {
        length - start
    };
    let mut out: Vec<usize> = Vec::new();
    let mut i: usize = 0;
    while i < count
        invariant
            i <= count,
            length == items@.len(),
            start + count <= length,
            out@ == items@.subrange(start as int, start + i),
        decreases count - i,
    {
        out.push(items[start + i]);
        i = i + 1;
    }
    out
}

/// What `IndexOf` answers: the first matching index and `true`, or zero and
/// `false` when nothing matches.
fn index_of_match(matches: &Vec<bool>) -> (r: (u32, bool))
    requires
        matches@.len() <= u32::MAX,
    ensures
        r.1 <==> exists|i: int| 0 <= i < matches@.len() && matches@[i],
        r.1 ==> r.0 < matches@.len() && matches@[r.0 as int] && forall|j: int|
            0 <= j < r.0 ==> !matches@[j],
        !r.1 ==> r.0 == 0,
{
    let mut i: usize = 0;
    while i < matches.len()
        invariant
            i <= matches@.len(),
            matches@.len() <= u32::MAX,
            forall|j: int| 0 <= j < i ==> !matches@[j],
        decreases matches@.len() - i,
    {
        if matches[i] {
            return (i as u32, true);
        }
        i = i + 1;
    }
    (0, false)
}

/// The item words of a vector, in order.
pub struct VectorItems {
    items: Vec<usize>,
}

impl View for VectorItems {
    type V = Seq<usize>;

    closed spec fn view(&self) -> Seq<usize> {
        self.items@
    }
}

impl VectorItems {
    pub fn new(items: Vec<usize>) -> (r: Self)
        ensures
            r@ == items@,
    {
        VectorItems { items }
    }

    /// `Size`: the number of items, truncated to 32 bits.
    pub fn size(&self) -> (r: u32)
        ensures
            r == self@.len() as u32,
    {
        self.items.len() as u32
    }

    /// A copy of the item words, for a snapshot view or an iterator.
    pub fn snapshot(&self) -> (r: Vec<usize>)
        ensures
            r@ == self@,
    {
        let r = window(&self.items, 0, self.items.len());
        assert(self@.subrange(0, self@.len() as int) =~= self@);
        r
    }

    /// `GetAt`: the item at `index`, refused with `E_BOUNDS` past the end.
    pub fn get_at(&self, index: u32) -> (r: Result<usize, i32>)
        ensures
            index < self@.len() ==> r == Ok::<usize, i32>(self@[index as int]),
            index >= self@.len() ==> r == Err::<usize, i32>(E_BOUNDS),
    {
        if index as usize >= self.items.len() {
            return Err(E_BOUNDS);
        }
        Ok(self.items[index as usize])
    }

    /// `GetMany`: the items from `start`, at most `capacity` of them.
    pub fn get_many(&self, start: u32, capacity: u32) -> (r: Vec<usize>)
        ensures
            r@ == spec_window(self@, start as int, capacity as int),
    {
        window(&self.items, start as usize, capacity as usize)
    }

    /// `IndexOf`, given whether each stored item equals the searched value.
    pub fn index_of(&self, matches: &Vec<bool>) -> (r: (u32, bool))
        requires
            matches@.len() == self@.len(),
            self@.len() <= u32::MAX,
        ensures
            r.1 <==> exists|i: int| 0 <= i < matches@.len() && matches@[i],
            r.1 ==> r.0 < self@.len() && matches@[r.0 as int] && forall|j: int|
                0 <= j < r.0 ==> !matches@[j],
            !r.1 ==> r.0 == 0,
    {
        index_of_match(matches)
    }

    /// Whether `SetAt` may store a new item at `index`: past the end is
    /// `E_BOUNDS`, checked before storage that holds no values (`E_NOTIMPL`).
    pub fn check_set_at(&self, index: u32, empty_only: bool) -> (r: Result<(), i32>)
        ensures
            index >= self@.len() ==> r == Err::<(), i32>(E_BOUNDS),
            index < self@.len() && empty_only ==> r == Err::<(), i32>(E_NOTIMPL),
            index < self@.len() && !empty_only ==> r == Ok::<(), i32>(()),
    {
        if index as usize >= self.items.len() {
            return Err(E_BOUNDS);
        }
        if empty_only {
            return Err(E_NOTIMPL);
        }
        Ok(())
    }

    /// `SetAt` once the new item is stored: returns the replaced item, which
    /// the caller releases, and the change to announce.
    pub fn set_at(&mut self, index: u32, item: usize) -> (r: (usize, VectorChange))
        requires
            index < old(self)@.len(),
        ensures
            final(self)@ == old(self)@.update(index as int, item),
            r.0 == old(self)@[index as int],
            r.1 == (VectorChange { collection_change: COLLECTION_CHANGE_ITEM_CHANGED, index }),
    {
        let previous = self.items[index as usize];
        self.items.set(index as usize, item);
        (previous, VectorChange { collection_change: COLLECTION_CHANGE_ITEM_CHANGED, index })
    }

    /// Whether `InsertAt` may store a new item at `index`: an index past the
    /// end (not at it) is `E_BOUNDS`, then storage without values is `E_NOTIMPL`.
    pub fn check_insert_at(&self, index: u32, empty_only: bool) -> (r: Result<(), i32>)
        ensures
            index > self@.len() ==> r == Err::<(), i32>(E_BOUNDS),
            index <= self@.len() && empty_only ==> r == Err::<(), i32>(E_NOTIMPL),
            index <= self@.len() && !empty_only ==> r == Ok::<(), i32>(()),
    {
        if index as usize > self.items.len() {
            return Err(E_BOUNDS);
        }
        if empty_only {
            return Err(E_NOTIMPL);
        }
        Ok(())
    }

    /// `InsertAt` once the new item is stored.
    pub fn insert_at(&mut self, index: u32, item: usize) -> (r: VectorChange)
        requires
            index <= old(self)@.len(),
        ensures
            final(self)@ == old(self)@.insert(index as int, item),
            r == (VectorChange { collection_change: COLLECTION_CHANGE_ITEM_INSERTED, index }),
    {
        self.items.insert(index as usize, item);
        VectorChange { collection_change: COLLECTION_CHANGE_ITEM_INSERTED, index }
    }

    /// `RemoveAt`: the removed item, which the caller releases, and the change.
    pub fn remove_at(&mut self, index: u32) -> (r: Result<(usize, VectorChange), i32>)
        ensures
            index >= old(self)@.len() ==> r == Err::<(usize, VectorChange), i32>(E_BOUNDS)
                && final(self)@ == old(self)@,
            index < old(self)@.len() ==> final(self)@ == old(self)@.remove(index as int) && r
                == Ok::<(usize, VectorChange), i32>(
                (
                    old(self)@[index as int],
                    VectorChange { collection_change: COLLECTION_CHANGE_ITEM_REMOVED, index },
                ),
            ),
    {
        if index as usize >= self.items.len() {
            return Err(E_BOUNDS);
        }
        let removed = self.items.remove(index as usize);
        Ok((removed, VectorChange { collection_change: COLLECTION_CHANGE_ITEM_REMOVED, index }))
    }

    /// `Append` once the new item is stored; the change names the old length,
    /// truncated to 32 bits.
    pub fn append(&mut self, item: usize) -> (r: VectorChange)
        ensures
            final(self)@ == old(self)@.push(item),
            r == (VectorChange {
                collection_change: COLLECTION_CHANGE_ITEM_INSERTED,
                index: old(self)@.len() as u32,
            }),
    {
        let index = self.items.len() as u32;
        self.items.push(item);
        VectorChange { collection_change: COLLECTION_CHANGE_ITEM_INSERTED, index }
    }

    /// `RemoveAtEnd`: the last item, which the caller releases, and the change.
    pub fn remove_at_end(&mut self) -> (r: Result<(usize, VectorChange), i32>)
        ensures
            old(self)@.len() == 0 ==> r == Err::<(usize, VectorChange), i32>(E_BOUNDS)
                && final(self)@ == old(self)@,
            old(self)@.len() > 0 ==> final(self)@ == old(self)@.drop_last() && r == Ok::<
                (usize, VectorChange),
                i32,
            >(
                (
                    old(self)@.last(),
                    VectorChange {
                        collection_change: COLLECTION_CHANGE_ITEM_REMOVED,
                        index: (old(self)@.len() - 1) as u32,
                    },
                ),
            ),
    {
        if self.items.len() == 0 {
            return Err(E_BOUNDS);
        }
        let index = (self.items.len() - 1) as u32;
        match self.items.pop() {
            Some(removed) => Ok(
                (removed, VectorChange { collection_change: COLLECTION_CHANGE_ITEM_REMOVED, index }),
            ),
            None => Err(E_BOUNDS),
        }
    }

    /// `Clear`: every item, which the caller releases, and a reset.
    pub fn clear(&mut self) -> (r: (Vec<usize>, VectorChange))
        ensures
            final(self)@ == Seq::<usize>::empty(),
            r.0@ == old(self)@,
            r.1 == (VectorChange { collection_change: COLLECTION_CHANGE_RESET, index: 0 }),
    {
        let mut removed: Vec<usize> = Vec::new();
        std::mem::swap(&mut removed, &mut self.items);
        (removed, VectorChange { collection_change: COLLECTION_CHANGE_RESET, index: 0 })
    }

    /// Whether `ReplaceAll` of `count` items may proceed.
    pub fn check_replace_all(count: u32, empty_only: bool) -> (r: Result<(), i32>)
        ensures
            count > 0 && empty_only ==> r == Err::<(), i32>(E_NOTIMPL),
            !(count > 0 && empty_only) ==> r == Ok::<(), i32>(()),
    {
        if count > 0 && empty_only {
            Err(E_NOTIMPL)
        } else {
            Ok(())
        }
    }

    /// `ReplaceAll` once the new items are stored: the old items, which the
    /// caller releases, and a reset.
    pub fn replace_all(&mut self, items: Vec<usize>) -> (r: (Vec<usize>, VectorChange))
        ensures
            final(self)@ == items@,
            r.0@ == old(self)@,
            r.1 == (VectorChange { collection_change: COLLECTION_CHANGE_RESET, index: 0 }),
    {
        let mut replaced = items;
        std::mem::swap(&mut replaced, &mut self.items);
        (replaced, VectorChange { collection_change: COLLECTION_CHANGE_RESET, index: 0 })
    }
}

/// The HRESULT of announcing a change to every registered handler, given what
/// each handler returned: the first failure, or success.
pub open spec fn spec_first_failure(results: Seq<i32>) -> i32
    decreases results.len(),
{
    if results.len() == 0 {
        S_OK
    } else if results[0] < 0 {
        results[0]
    } else {
        spec_first_failure(results.drop_first())
    }
}

pub fn first_failure(results: &Vec<i32>) -> (r: i32)
    ensures
        r == spec_first_failure(results@),
{
    let mut i: usize = results.len();
    let mut outcome: i32 = S_OK;
    while i > 0
        invariant
            i <= results@.len(),
            outcome == spec_first_failure(results@.subrange(i as int, results@.len() as int)),
        decreases i,
    {
        i = i - 1;
        let ghost tail = results@.subrange(i as int, results@.len() as int);
        assert(tail.drop_first() =~= results@.subrange(i + 1, results@.len() as int));
        if results[i] < 0 {
            outcome = results[i];
        }
    }
    assert(results@.subrange(0, results@.len() as int) =~= results@);
    outcome
}

/// An iterator over a snapshot of item words and its cursor.
pub struct ItemIterator {
    items: Vec<usize>,
    cursor: usize,
}

impl ItemIterator {
    pub closed spec fn spec_items(self) -> Seq<usize> {
        self.items@
    }

    pub closed spec fn spec_cursor(self) -> usize {
        self.cursor
    }

    /// The cursor never passes the end.
    pub open spec fn wf(self) -> bool {
        self.spec_cursor() <= self.spec_items().len()
    }

    pub fn new(items: Vec<usize>) -> (r: Self)
        ensures
            r.spec_items() == items@,
            r.spec_cursor() == 0,
            r.wf(),
    {
        ItemIterator { items, cursor: 0 }
    }

    /// `Current`: the item under the cursor, `E_BOUNDS` at the end.
    pub fn get_current(&self) -> (r: Result<usize, i32>)
        ensures
            self.spec_cursor() < self.spec_items().len() ==> r == Ok::<usize, i32>(
                self.spec_items()[self.spec_cursor() as int],
            ),
            self.spec_cursor() >= self.spec_items().len() ==> r == Err::<usize, i32>(E_BOUNDS),
    {
        if self.cursor >= self.items.len() {
            return Err(E_BOUNDS);
        }
        Ok(self.items[self.cursor])
    }

    /// `HasCurrent`.
    pub fn has_current(&self) -> (r: bool)
        ensures
            r == (self.spec_cursor() < self.spec_items().len()),
    {
        self.cursor < self.items.len()
    }

    /// `MoveNext`: advances unless at the end, then says whether an item is
    /// current.
    pub fn move_next(&mut self) -> (r: bool)
        requires
            old(self).wf(),
        ensures
            final(self).wf(),
            final(self).spec_items() == old(self).spec_items(),
            final(self).spec_cursor() == if old(self).spec_cursor() < old(self).spec_items().len() {
                (old(self).spec_cursor() + 1) as usize
            } else {
                old(self).spec_cursor()
            },
            r == (final(self).spec_cursor() < final(self).spec_items().len()),
    {
        if self.cursor < self.items.len() {
            self.cursor = self.cursor + 1;
        }
        self.cursor < self.items.len()
    }

    /// `GetMany`: at most `capacity` items from the cursor, which moves past them.
    pub fn get_many(&mut self, capacity: u32) -> (r: Vec<usize>)
        requires
            old(self).wf(),
        ensures
            final(self).wf(),
            final(self).spec_items() == old(self).spec_items(),
            r@ == spec_window(old(self).spec_items(), old(self).spec_cursor() as int, capacity as int),
            final(self).spec_cursor() == old(self).spec_cursor() + r@.len(),
    {
        let length = self.items.len();
        let taken = window(&self.items, self.cursor, capacity as usize);
        assert(taken@.len() <= length - self.cursor);
        self.cursor = self.cursor + taken.len();
        taken
    }

    /// The item words still held, which the caller releases when the
    /// iterator is destroyed.
    pub fn into_items(self) -> (r: Vec<usize>)
        ensures
            r@ == self.spec_items(),
    {
        self.items
    }
}

/// Iterating a snapshot yields its items in order: after `k` successful
/// moves the current item is the `k`-th.
pub proof fn lemma_iteration_follows_the_snapshot(items: Seq<usize>, cursor: usize)
    requires
        cursor < items.len(),
    ensures
        spec_window(items, cursor as int, 1) == seq![items[cursor as int]],
{
    assert(spec_window(items, cursor as int, 1) =~= seq![items[cursor as int]]);
}

/// Inserting an item and removing it again at the same index restores the
/// items.
pub proof fn lemma_insert_then_remove(items: Seq<usize>, index: int, item: usize)
    requires
        0 <= index <= items.len(),
    ensures
        items.insert(index, item).remove(index) == items,
        items.insert(index, item)[index] == item,
{
    assert(items.insert(index, item).remove(index) =~= items);
}

/// Setting an item and reading it back gives the item; other items stay.
pub proof fn lemma_set_then_get(items: Seq<usize>, index: int, item: usize, other: int)
    requires
        0 <= index < items.len(),
        0 <= other < items.len(),
        other != index,
    ensures
        items.update(index, item)[index] == item,
        items.update(index, item)[other] == items[other],
{
}

} // verus!
