//! The vtable plan of vectors whose elements are plain native structs: which
//! slots take element-typed callbacks and of what shape, cached once per
//! element signature. Creating the callbacks themselves is native work.

use vstd::prelude::*;
use vstd::string::StringExecFns;

verus! {

/// The native shape of an element-typed callback.
#[derive(Clone, Copy, Debug, PartialEq, Eq, Structural)]
pub enum CallbackShape {
    /// `IndexOf`: the element, then the found flag and index pointers.
    Lookup,
    /// `SetAt`/`InsertAt`: a 32-bit index, then the element.
    Indexed,
    /// `Append`: the element alone.
    Append,
}

/// One vtable slot replaced by an element-typed callback.
#[derive(Clone, Copy, Debug, PartialEq, Eq, Structural)]
pub struct CallbackSlot {
    pub slot: u32,
    pub shape: CallbackShape,
}

/// The element-typed slots of the vector vtable and of its live and snapshot
/// view vtables, for elements of `element_size` bytes. Every callback returns
/// an HRESULT.
#[derive(Clone, Copy, Debug, PartialEq, Eq, Structural)]
pub struct PodVtablePlan {
    pub element_size: usize,
    pub vector_index_of: CallbackSlot,
    pub vector_set_at: CallbackSlot,
    pub vector_insert_at: CallbackSlot,
    pub vector_append: CallbackSlot,
    pub live_index_of: CallbackSlot,
    pub snapshot_index_of: CallbackSlot,
}

/// The plan for elements of `element_size` bytes: `IVector` slots 9, 10, 11
/// and 13, and slot 8 of both view vtables.
pub open spec fn spec_pod_vtable_plan(element_size: usize) -> PodVtablePlan {
    PodVtablePlan {
        element_size,
        vector_index_of: CallbackSlot { slot: 9, shape: CallbackShape::Lookup },
        vector_set_at: CallbackSlot { slot: 10, shape: CallbackShape::Indexed },
        vector_insert_at: CallbackSlot { slot: 11, shape: CallbackShape::Indexed },
        vector_append: CallbackSlot { slot: 13, shape: CallbackShape::Append },
        live_index_of: CallbackSlot { slot: 8, shape: CallbackShape::Lookup },
        snapshot_index_of: CallbackSlot { slot: 8, shape: CallbackShape::Lookup },
    }
}

pub fn pod_vtable_plan(element_size: usize) -> (r: PodVtablePlan)
    ensures
        r == spec_pod_vtable_plan(element_size),
{
    PodVtablePlan {
        element_size,
        vector_index_of: CallbackSlot { slot: 9, shape: CallbackShape::Lookup },
        vector_set_at: CallbackSlot { slot: 10, shape: CallbackShape::Indexed },
        vector_insert_at: CallbackSlot { slot: 11, shape: CallbackShape::Indexed },
        vector_append: CallbackSlot { slot: 13, shape: CallbackShape::Append },
        live_index_of: CallbackSlot { slot: 8, shape: CallbackShape::Lookup },
        snapshot_index_of: CallbackSlot { slot: 8, shape: CallbackShape::Lookup },
    }
}

/// The plans made so far, one per element signature.
pub struct PodVtableCache {
    plans: Vec<(String, PodVtablePlan)>,
}

impl View for PodVtableCache {
    type V = Map<Seq<char>, PodVtablePlan>;

    closed spec fn view(&self) -> Map<Seq<char>, PodVtablePlan> {
        Map::new(
            |key: Seq<char>| exists|i: int| 0 <= i < self.plans@.len() && #[trigger] self.plans@[i].0@ == key,
            |key: Seq<char>| self.plans@[choose|i: int| 0 <= i < self.plans@.len() && #[trigger] self.plans@[i].0@ == key].1,
        )
    }
}

impl PodVtableCache {
    /// No signature occurs twice.
    pub closed spec fn wf(self) -> bool {
        forall|i: int, j: int|
            0 <= i < self.plans@.len() && 0 <= j < self.plans@.len() && i != j ==> #[trigger] self.plans@[i].0@
                != #[trigger] self.plans@[j].0@
    }

    pub fn new() -> (r: Self)
        ensures
            r.wf(),
            r@ == Map::<Seq<char>, PodVtablePlan>::empty(),
    {
        let r = PodVtableCache { plans: Vec::new() };
        assert(r@ =~= Map::<Seq<char>, PodVtablePlan>::empty());
        r
    }

    proof fn lemma_entry(self, i: int)
        requires
            self.wf(),
            0 <= i < self.plans@.len(),
        ensures
            self@.contains_key(self.plans@[i].0@),
            self@[self.plans@[i].0@] == self.plans@[i].1,
    {
        let key = self.plans@[i].0@;
        assert(exists|k: int| 0 <= k < self.plans@.len() && #[trigger] self.plans@[k].0@ == key);
        let j = choose|k: int| 0 <= k < self.plans@.len() && #[trigger] self.plans@[k].0@ == key;
        assert(j == i);
    }

    /// The plan for an element signature: the cached one unchanged, or a new
    /// plan for `element_size`, which is then cached.
    pub fn get_or_plan(&mut self, signature: &str, element_size: usize) -> (r: PodVtablePlan)
        requires
            old(self).wf(),
        ensures
            final(self).wf(),
            old(self)@.contains_key(signature@) ==> r == old(self)@[signature@] && final(self)@
                == old(self)@,
            !old(self)@.contains_key(signature@) ==> r == spec_pod_vtable_plan(element_size)
                && final(self)@ == old(self)@.insert(signature@, r),
    {
        let key = String::from_str(signature);
        let mut i: usize = 0;
        while i < self.plans.len()
            invariant
                i <= self.plans@.len(),
                self.wf(),
                *self == *old(self),
                key@ == signature@,
                forall|k: int| 0 <= k < i ==> #[trigger] self.plans@[k].0@ != signature@,
            decreases self.plans@.len() - i,
        {
            if self.plans[i].0 == key {
                proof {
                    self.lemma_entry(i as int);
                }
                return self.plans[i].1;
            }
            i = i + 1;
        }
        assert(!old(self)@.contains_key(signature@));
        let plan = pod_vtable_plan(element_size);
        let ghost before = self.plans@;
        self.plans.push((key, plan));
        proof {
            let n = before.len() as int;
            assert forall|i: int, j: int|
                0 <= i < self.plans@.len() && 0 <= j < self.plans@.len() && i != j implies #[trigger] self.plans@[i].0@
                    != #[trigger] self.plans@[j].0@ by {
                if i < n && j < n {
                    assert(self.plans@[i] == before[i] && self.plans@[j] == before[j]);
                } else if i == n {
                    assert(self.plans@[j] == before[j]);
                } else {
                    assert(self.plans@[i] == before[i]);
                }
            }
            assert forall|k: Seq<char>| #[trigger] self@.contains_key(k) <==> old(self)@.insert(signature@, plan).contains_key(k) by {
                if old(self)@.contains_key(k) {
                    let i = choose|i: int| 0 <= i < before.len() && #[trigger] before[i].0@ == k;
                    assert(self.plans@[i] == before[i]);
                }
                if k == signature@ {
                    assert(self.plans@[n].0@ == k);
                }
                if self@.contains_key(k) {
                    let i = choose|i: int| 0 <= i < self.plans@.len() && #[trigger] self.plans@[i].0@ == k;
                    if i < n {
                        assert(self.plans@[i] == before[i]);
                    }
                }
            }
            assert forall|k: Seq<char>| #[trigger] self@.contains_key(k) implies self@[k] == old(self)@.insert(signature@, plan)[k] by {
                let i = choose|i: int| 0 <= i < self.plans@.len() && #[trigger] self.plans@[i].0@ == k;
                self.lemma_entry(i);
                if i < n {
                    assert(self.plans@[i] == before[i]);
                    old(self).lemma_entry(i);
                }
            }
            assert(self@ =~= old(self)@.insert(signature@, plan));
        }
        plan
    }
}

} // verus!
