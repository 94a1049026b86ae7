//! The state of a dynamically built WinRT map: its entries of key and value
//! object words, how a key is found, and what each `IMap`/`IMapView` method
//! does to the entries. Reading the string that a key object boxes, and
//! adding and releasing object references, is native work of the caller.

use vstd::prelude::*;

use crate::vector::E_BOUNDS;

verus! {

/// Whether the entry at `i` matches a searched key: by the boxed string when
/// the searched key boxes one, by object identity otherwise.
pub open spec fn key_matches(
    keys: Seq<usize>,
    key_texts: Seq<Option<Seq<char>>>,
    i: int,
    key: usize,
    key_text: Option<Seq<char>>,
) -> bool {
    match key_text {
        Some(text) => key_texts[i] == Some(text),
        None => keys[i] == key,
    }
}

pub open spec fn text_views(texts: Seq<Option<String>>) -> Seq<Option<Seq<char>>> {
    texts.map_values(|t: Option<String>| match t {
        Some(s) => Some(s@),
        None => None,
    })
}

pub open spec fn text_view(text: Option<String>) -> Option<Seq<char>> {
    match text {
        Some(s) => Some(s@),
        None => None,
    }
}

/// The first entry that matches a key, given the string each entry's key
/// boxes (if any) and the string the searched key boxes (if any).
pub fn find_key_index(
    keys: &Vec<usize>,
    key_texts: &Vec<Option<String>>,
    key: usize,
    key_text: &Option<String>,
) -> (r: Option<usize>)
    requires
        key_texts@.len() == keys@.len(),
    ensures
        match r {
            Some(i) => i < keys@.len() && key_matches(
                keys@,
                text_views(key_texts@),
                i as int,
                key,
                text_view(*key_text),
            ) && forall|j: int|
                0 <= j < i ==> !key_matches(
                    keys@,
                    text_views(key_texts@),
                    j,
                    key,
                    text_view(*key_text),
                ),
            None => forall|j: int|
                0 <= j < keys@.len() ==> !key_matches(
                    keys@,
                    text_views(key_texts@),
                    j,
                    key,
                    text_view(*key_text),
                ),
        },
{
    let mut i: usize = 0;
    while i < keys.len()
        invariant
            i <= keys@.len(),
            key_texts@.len() == keys@.len(),
            forall|j: int|
                0 <= j < i ==> !key_matches(
                    keys@,
                    text_views(key_texts@),
                    j,
                    key,
                    text_view(*key_text),
                ),
        decreases keys@.len() - i,
    {
        let found = match key_text {
            Some(text) => match &key_texts[i] {
                Some(entry) => *entry == *text,
                None => false,
            },
            None => keys[i] == key,
        };
        if found {
            return Some(i);
        }
        i = i + 1;
    }
    None
}

/// What inserting into a map did: whether an existing entry's value was
/// replaced, and the replaced value, which the caller releases together with
/// the surplus reference to the new key.
#[derive(Clone, Copy, Debug, PartialEq, Eq, Structural)]
pub struct Insertion {
    pub replaced: bool,
    pub released_value: Option<usize>,
}

/// The entries of a map, in insertion order.
pub struct MapEntries {
    keys: Vec<usize>,
    values: Vec<usize>,
}

impl MapEntries {
    pub closed spec fn spec_keys(self) -> Seq<usize> {
        self.keys@
    }

    pub closed spec fn spec_values(self) -> Seq<usize> {
        self.values@
    }

    /// Every key has a value.
    pub open spec fn wf(self) -> bool {
        self.spec_keys().len() == self.spec_values().len()
    }

    pub fn new() -> (r: Self)
        ensures
            r.wf(),
            r.spec_keys().len() == 0,
    {
        MapEntries { keys: Vec::new(), values: Vec::new() }
    }

    /// `Size`: the number of entries, truncated to 32 bits.
    pub fn size(&self) -> (r: u32)
        ensures
            r == self.spec_keys().len() as u32,
    {
        self.keys.len() as u32
    }

    /// The key words in order, for computing their boxed strings.
    pub fn keys(&self) -> (r: &Vec<usize>)
        ensures
            r@ == self.spec_keys(),
    {
        &self.keys
    }

    /// The value of the entry at `index`.
    pub fn value_at(&self, index: usize) -> (r: usize)
        requires
            self.wf(),
            index < self.spec_keys().len(),
        ensures
            r == self.spec_values()[index as int],
    {
        self.values[index]
    }

    /// `Lookup`: the value of the first matching entry, `E_BOUNDS` when none.
    pub fn lookup(
        &self,
        key: usize,
        key_text: &Option<String>,
        key_texts: &Vec<Option<String>>,
    ) -> (r: Result<usize, i32>)
        requires
            self.wf(),
            key_texts@.len() == self.spec_keys().len(),
        ensures
            r is Err ==> r == Err::<usize, i32>(E_BOUNDS) && forall|j: int|
                0 <= j < self.spec_keys().len() ==> !key_matches(
                    self.spec_keys(),
                    text_views(key_texts@),
                    j,
                    key,
                    text_view(*key_text),
                ),
            r matches Ok(value) ==> exists|i: int|
                0 <= i < self.spec_keys().len() && key_matches(
                    self.spec_keys(),
                    text_views(key_texts@),
                    i,
                    key,
                    text_view(*key_text),
                ) && value == self.spec_values()[i] && forall|j: int|
                    0 <= j < i ==> !key_matches(
                        self.spec_keys(),
                        text_views(key_texts@),
                        j,
                        key,
                        text_view(*key_text),
                    ),
    {
        match find_key_index(&self.keys, key_texts, key, key_text) {
            Some(i) => Ok(self.values[i]),
            None => Err(E_BOUNDS),
        }
    }

    /// `HasKey`.
    pub fn has_key(
        &self,
        key: usize,
        key_text: &Option<String>,
        key_texts: &Vec<Option<String>>,
    ) -> (r: bool)
        requires
            key_texts@.len() == self.spec_keys().len(),
        ensures
            r <==> exists|i: int|
                0 <= i < self.spec_keys().len() && key_matches(
                    self.spec_keys(),
                    text_views(key_texts@),
                    i,
                    key,
                    text_view(*key_text),
                ),
    {
        match find_key_index(&self.keys, key_texts, key, key_text) {
            Some(_) => true,
            None => false,
        }
    }

    /// `Insert`: replaces the value of the first matching entry, or appends a
    /// new entry.
    pub fn insert(
        &mut self,
        key: usize,
        value: usize,
        key_text: &Option<String>,
        key_texts: &Vec<Option<String>>,
    ) -> (r: Insertion)
        requires
            old(self).wf(),
            key_texts@.len() == old(self).spec_keys().len(),
        ensures
            final(self).wf(),
            r.replaced ==> exists|i: int|
                0 <= i < old(self).spec_keys().len() && key_matches(
                    old(self).spec_keys(),
                    text_views(key_texts@),
                    i,
                    key,
                    text_view(*key_text),
                ) && (forall|j: int|
                    0 <= j < i ==> !key_matches(
                        old(self).spec_keys(),
                        text_views(key_texts@),
                        j,
                        key,
                        text_view(*key_text),
                    )) && final(self).spec_keys() == old(self).spec_keys() && final(self).spec_values()
                    == old(self).spec_values().update(i, value) && r.released_value == Some(
                    old(self).spec_values()[i],
                ),
            !r.replaced ==> (forall|j: int|
                0 <= j < old(self).spec_keys().len() ==> !key_matches(
                    old(self).spec_keys(),
                    text_views(key_texts@),
                    j,
                    key,
                    text_view(*key_text),
                )) && final(self).spec_keys() == old(self).spec_keys().push(key)
                && final(self).spec_values() == old(self).spec_values().push(value)
                && r.released_value is None,
    {
        match find_key_index(&self.keys, key_texts, key, key_text) {
            Some(i) => {
                let previous = self.values[i];
                self.values.set(i, value);
                Insertion { replaced: true, released_value: Some(previous) }
            },
            None => {
                self.keys.push(key);
                self.values.push(value);
                Insertion { replaced: false, released_value: None }
            },
        }
    }

    /// `Remove`: the first matching entry, whose references the caller
    /// releases, or `E_BOUNDS`.
    pub fn remove(
        &mut self,
        key: usize,
        key_text: &Option<String>,
        key_texts: &Vec<Option<String>>,
    ) -> (r: Result<(usize, usize), i32>)
        requires
            old(self).wf(),
            key_texts@.len() == old(self).spec_keys().len(),
        ensures
            final(self).wf(),
            (exists|i: int|
                0 <= i < old(self).spec_keys().len() && #[trigger] key_matches(
                    old(self).spec_keys(),
                    text_views(key_texts@),
                    i,
                    key,
                    text_view(*key_text),
                )) <==> r is Ok,
            r is Err ==> r == Err::<(usize, usize), i32>(E_BOUNDS) && final(self).spec_keys()
                == old(self).spec_keys() && final(self).spec_values() == old(self).spec_values(),
            r matches Ok((k, v)) ==> exists|i: int|
                0 <= i < old(self).spec_keys().len() && key_matches(
                    old(self).spec_keys(),
                    text_views(key_texts@),
                    i,
                    key,
                    text_view(*key_text),
                ) && (forall|j: int|
                    0 <= j < i ==> !key_matches(
                        old(self).spec_keys(),
                        text_views(key_texts@),
                        j,
                        key,
                        text_view(*key_text),
                    )) && k == old(self).spec_keys()[i] && v == old(self).spec_values()[i]
                    && final(self).spec_keys() == old(self).spec_keys().remove(i)
                    && final(self).spec_values() == old(self).spec_values().remove(i),
    {
        match find_key_index(&self.keys, key_texts, key, key_text) {
            Some(i) => {
                let k = self.keys.remove(i);
                let v = self.values.remove(i);
                Ok((k, v))
            },
            None => Err(E_BOUNDS),
        }
    }

    /// `Clear`: every entry, whose references the caller releases.
    pub fn clear(&mut self) -> (r: (Vec<usize>, Vec<usize>))
        ensures
            final(self).wf(),
            final(self).spec_keys().len() == 0,
            r.0@ == old(self).spec_keys(),
            r.1@ == old(self).spec_values(),
    {
        let mut keys: Vec<usize> = Vec::new();
        let mut values: Vec<usize> = Vec::new();
        std::mem::swap(&mut keys, &mut self.keys);
        std::mem::swap(&mut values, &mut self.values);
        (keys, values)
    }
}

/// A key inserted as a new entry is then found exactly at that entry, so a
/// lookup by the same key (with the same boxed string) returns the inserted
/// value: no earlier entry matches it, and the appended one does.
pub proof fn lemma_appended_key_is_found(
    keys: Seq<usize>,
    key_texts: Seq<Option<Seq<char>>>,
    values: Seq<usize>,
    key: usize,
    key_text: Option<Seq<char>>,
    value: usize,
)
    requires
        keys.len() == key_texts.len(),
        keys.len() == values.len(),
        forall|j: int| 0 <= j < keys.len() ==> !key_matches(keys, key_texts, j, key, key_text),
    ensures
        forall|j: int|
            0 <= j <= keys.len() ==> (key_matches(
                keys.push(key),
                key_texts.push(key_text),
                j,
                key,
                key_text,
            ) <==> j == keys.len()),
        values.push(value)[keys.len() as int] == value,
{
    assert forall|j: int| 0 <= j <= keys.len() implies (key_matches(
        keys.push(key),
        key_texts.push(key_text),
        j,
        key,
        key_text,
    ) <==> j == keys.len()) by {
        if j < keys.len() {
            assert(keys.push(key)[j] == keys[j]);
            assert(key_texts.push(key_text)[j] == key_texts[j]);
            assert(!key_matches(keys, key_texts, j, key, key_text));
        }
    }
}

/// Replacing the value of the first matching entry makes a lookup by the same
/// key return the new value: the entries' keys are unchanged, so the same
/// entry is still the first match.
pub proof fn lemma_replaced_value_is_found(values: Seq<usize>, i: int, value: usize)
    requires
        0 <= i < values.len(),
    ensures
        values.update(i, value)[i] == value,
{
}

} // verus!
