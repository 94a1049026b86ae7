//! System module names: which DLL names may be loaded from System32, and the
//! process cache that shares one module per case-insensitive name.

use std::sync::Arc;

use vstd::prelude::*;

use crate::error::Win32Error;

verus! {

/// Whether `c` equals the lower-case ASCII letter or punctuation `lower`,
/// ignoring ASCII case.
pub open spec fn ascii_case_eq(c: char, lower: char) -> bool {
    c == lower || (('a' <= lower && lower <= 'z') && (c as u32) == (lower as u32) - 32)
}

/// Whether `s` ends with the four characters `.`, `a`, `b`, `c` in any ASCII case.
pub open spec fn ends_with_extension(s: Seq<char>, a: char, b: char, c: char) -> bool {
    let n = s.len();
    &&& n >= 4
    &&& s[n - 4] == '.'
    &&& ascii_case_eq(s[n - 3], a)
    &&& ascii_case_eq(s[n - 2], b)
    &&& ascii_case_eq(s[n - 1], c)
}

/// A bare System32 module name: nonempty, ending in `.dll` or `.drv` in any
/// ASCII case, with no NUL, no path separator, no drive colon, and not a
/// relative directory name.
pub open spec fn spec_is_bare_system_module_name(s: Seq<char>) -> bool {
    &&& s.len() != 0
    &&& (ends_with_extension(s, 'd', 'l', 'l') || ends_with_extension(s, 'd', 'r', 'v'))
    &&& !s.contains('\0')
    &&& !s.contains('/')
    &&& !s.contains('\\')
    &&& !s.contains(':')
    &&& s != seq!['.']
    &&& s != seq!['.', '.']
}

fn case_eq(c: char, lower: char) -> (r: bool)
    requires
        lower == '.' || ('a' <= lower && lower <= 'z'),
    ensures
        r == ascii_case_eq(c, lower),
{
    if c == lower {
        return true;
    }
    if lower == 'd' {
        c == 'D'
    } else if lower == 'l' {
        c == 'L'
    } else if lower == 'r' {
        c == 'R'
    } else if lower == 'v' {
        c == 'V'
    } else {
        assert(lower == '.' || ('a' <= lower && lower <= 'z'));
        if lower == '.' {
            false
        } else {
            (c as u32) == (lower as u32) - 32
        }
    }
}

fn has_extension(name: &str, length: usize, a: char, b: char, c: char) -> (r: bool)
    requires
        length == name@.len(),
        'a' <= a <= 'z',
        'a' <= b <= 'z',
        'a' <= c <= 'z',
    ensures
        r == ends_with_extension(name@, a, b, c),
{
    if length < 4 {
        return false;
    }
    name.get_char(length - 4) == '.' && case_eq(name.get_char(length - 3), a) && case_eq(
        name.get_char(length - 2),
        b,
    ) && case_eq(name.get_char(length - 1), c)
}

/// Whether `dll` may be loaded by its bare name from System32.
pub fn is_bare_system_module_name(dll: &str) -> (r: bool)
    ensures
        r == spec_is_bare_system_module_name(dll@),
{
    let length = dll.unicode_len();
    if length == 0 {
        return false;
    }
    if !(has_extension(dll, length, 'd', 'l', 'l') || has_extension(dll, length, 'd', 'r', 'v')) {
        return false;
    }
    let mut index: usize = 0;
    while index < length
        invariant
            length == dll@.len(),
            index <= length,
            forall|i: int|
                0 <= i < index ==> dll@[i] != '\0' && dll@[i] != '/' && dll@[i] != '\\'
                    && dll@[i] != ':',
        decreases length - index,
    {
        let c = dll.get_char(index);
        if c == '\0' || c == '/' || c == '\\' || c == ':' {
            assert(dll@[index as int] == c);
            return false;
        }
        index = index + 1;
    }
    assert(!dll@.contains('\0') && !dll@.contains('/') && !dll@.contains('\\') && !dll@.contains(
        ':',
    )) by {
        if dll@.contains('\0') {
            let i = choose|i: int| 0 <= i < dll@.len() && dll@[i] == '\0';
            assert(dll@[i] != '\0');
        }
        if dll@.contains('/') {
            let i = choose|i: int| 0 <= i < dll@.len() && dll@[i] == '/';
            assert(dll@[i] != '/');
        }
        if dll@.contains('\\') {
            let i = choose|i: int| 0 <= i < dll@.len() && dll@[i] == '\\';
            assert(dll@[i] != '\\');
        }
        if dll@.contains(':') {
            let i = choose|i: int| 0 <= i < dll@.len() && dll@[i] == ':';
            assert(dll@[i] != ':');
        }
    }
    // A name ending in ".dll" or ".drv" has at least four characters, so it
    // is never "." or "..".
    assert(dll@ != seq!['.']);
    assert(dll@ != seq!['.', '.']);
    true
}


/// A character mapped to its ASCII lower case; other characters unchanged.
pub open spec fn ascii_lower(c: char) -> char {
    if 'A' <= c && c <= 'Z' {
        ((c as u32) + 32) as char
    } else {
        c
    }
}

/// A text with every ASCII letter in lower case.
pub open spec fn ascii_lowercase(s: Seq<char>) -> Seq<char> {
    s.map_values(|c: char| ascii_lower(c))
}

/// `str::to_ascii_lowercase`: a copy of the text in which the ASCII letters
/// `A` to `Z` become `a` to `z` and every other character is unchanged.
#[verifier::external_body]
fn to_ascii_lowercase(text: &str) -> (r: String)
    ensures
        r@ == ascii_lowercase(text@),
{
    text.to_ascii_lowercase()
}

/// `Arc::clone`: another pointer to the same shared value.
#[verifier::external_body]
fn share<T>(shared: &Arc<T>) -> (r: Arc<T>)
    ensures
        *r == **shared,
{
    Arc::clone(shared)
}

/// A system module loaded by its bare name: the name it was loaded under and
/// the native module handle.
#[derive(Debug)]
pub struct SystemModule {
    name: String,
    handle: usize,
}

impl SystemModule {
    pub closed spec fn spec_name(self) -> Seq<char> {
        self.name@
    }

    pub closed spec fn spec_handle(self) -> usize {
        self.handle
    }

    /// A module that the native loader returned for `name`.
    pub fn new(name: String, handle: usize) -> (r: Self)
        ensures
            r.spec_name() == name@,
            r.spec_handle() == handle,
    {
        SystemModule { name, handle }
    }

    pub fn name(&self) -> (r: &str)
        ensures
            r@ == self.spec_name(),
    {
        self.name.as_str()
    }

    pub fn handle(&self) -> (r: usize)
        ensures
            r == self.spec_handle(),
    {
        self.handle
    }
}

/// The key under which a module name is cached: the name in ASCII lower case,
/// refused unless it is a bare System32 module name.
pub fn module_key(dll: &str) -> (r: Result<String, Win32Error>)
    ensures
        spec_is_bare_system_module_name(dll@) <==> r is Ok,
        r matches Ok(key) ==> key@ == ascii_lowercase(dll@),
        r is Err ==> r == Err::<String, Win32Error>(Win32Error::InvalidModuleName),
{
    if !is_bare_system_module_name(dll) {
        return Err(Win32Error::InvalidModuleName);
    }
    Ok(to_ascii_lowercase(dll))
}

/// The process cache of system modules: one shared module per key. Failed
/// loads are not cached.
pub struct ModuleCache {
    modules: Vec<(String, Arc<SystemModule>)>,
}

impl View for ModuleCache {
    type V = Map<Seq<char>, SystemModule>;

    closed spec fn view(&self) -> Map<Seq<char>, SystemModule> {
        Map::new(
            |key: Seq<char>| exists|i: int| 0 <= i < self.modules@.len() && #[trigger] self.modules@[i].0@ == key,
            |key: Seq<char>| *self.modules@[choose|i: int| 0 <= i < self.modules@.len() && #[trigger] self.modules@[i].0@ == key].1,
        )
    }
}

impl ModuleCache {
    /// No key occurs twice.
    pub closed spec fn wf(self) -> bool {
        forall|i: int, j: int|
            0 <= i < self.modules@.len() && 0 <= j < self.modules@.len() && i != j ==> #[trigger] self.modules@[i].0@
                != #[trigger] self.modules@[j].0@
    }

    pub fn new() -> (r: Self)
        ensures
            r.wf(),
            r@ == Map::<Seq<char>, SystemModule>::empty(),
    {
        let r = ModuleCache { modules: Vec::new() };
        assert(r@ =~= Map::<Seq<char>, SystemModule>::empty());
        r
    }

    fn position(&self, key: &String) -> (r: Option<usize>)
        requires
            self.wf(),
        ensures
            match r {
                Some(i) => i < self.modules@.len() && self.modules@[i as int].0@ == key@,
                None => forall|i: int|
                    0 <= i < self.modules@.len() ==> #[trigger] self.modules@[i].0@ != key@,
            },
    {
        let mut i: usize = 0;
        while i < self.modules.len()
            invariant
                i <= self.modules@.len(),
                forall|k: int| 0 <= k < i ==> #[trigger] self.modules@[k].0@ != key@,
            decreases self.modules@.len() - i,
        {
            if self.modules[i].0 == *key {
                return Some(i);
            }
            i = i + 1;
        }
        None
    }

    proof fn lemma_lookup(self, i: int)
        requires
            self.wf(),
            0 <= i < self.modules@.len(),
        ensures
            self@.contains_key(self.modules@[i].0@),
            self@[self.modules@[i].0@] == *self.modules@[i].1,
    {
        let key = self.modules@[i].0@;
        assert(exists|k: int| 0 <= k < self.modules@.len() && #[trigger] self.modules@[k].0@ == key);
        let j = choose|k: int| 0 <= k < self.modules@.len() && #[trigger] self.modules@[k].0@ == key;
        assert(j == i);
    }

    /// The cached module for a key, if any.
    pub fn lookup(&self, key: &String) -> (r: Option<Arc<SystemModule>>)
        requires
            self.wf(),
        ensures
            self@.contains_key(key@) <==> r is Some,
            r matches Some(module) ==> *module == self@[key@],
    {
        match self.position(key) {
            Some(i) => {
                proof {
                    self.lemma_lookup(i as int);
                }
                Some(share(&self.modules[i].1))
            },
            None => {
                assert(!self@.contains_key(key@));
                None
            },
        }
    }

    /// Publishes a loaded module under a key. When the key is already cached
    /// the cached module is returned with the newcomer, whose native reference
    /// the caller then releases.
    pub fn publish(&mut self, key: String, module: SystemModule) -> (r: (
        Arc<SystemModule>,
        Option<SystemModule>,
    ))
        requires
            old(self).wf(),
        ensures
            final(self).wf(),
            old(self)@.contains_key(key@) ==> final(self)@ == old(self)@ && *r.0 == old(self)@[key@]
                && r.1 == Some(module),
            !old(self)@.contains_key(key@) ==> final(self)@ == old(self)@.insert(key@, module)
                && *r.0 == module && r.1 is None,
    {
        match self.lookup(&key) {
            Some(existing) => (existing, Some(module)),
            None => {
                let shared = Arc::new(module);
                let published = share(&shared);
                let ghost before = self.modules@;
                self.modules.push((key, shared));
                proof {
                    let n = before.len() as int;
                    assert forall|i: int, j: int|
                        0 <= i < self.modules@.len() && 0 <= j < self.modules@.len() && i != j implies #[trigger] self.modules@[i].0@
                            != #[trigger] self.modules@[j].0@ by {
                        if i < n && j < n {
                            assert(self.modules@[i] == before[i] && self.modules@[j] == before[j]);
                        } else if i == n {
                            assert(self.modules@[j] == before[j]);
                        } else {
                            assert(self.modules@[i] == before[i]);
                        }
                    }
                    assert forall|k: Seq<char>| #[trigger] self@.contains_key(k) <==> old(self)@.insert(key@, module).contains_key(k) by {
                        if old(self)@.contains_key(k) {
                            let i = choose|i: int| 0 <= i < before.len() && #[trigger] before[i].0@ == k;
                            assert(self.modules@[i] == before[i]);
                        }
                        if k == key@ {
                            assert(self.modules@[n].0@ == k);
                        }
                        if self@.contains_key(k) {
                            let i = choose|i: int| 0 <= i < self.modules@.len() && #[trigger] self.modules@[i].0@ == k;
                            if i < n {
                                assert(self.modules@[i] == before[i]);
                            }
                        }
                    }
                    assert forall|k: Seq<char>| #[trigger] self@.contains_key(k) implies self@[k] == old(self)@.insert(key@, module)[k] by {
                        let i = choose|i: int| 0 <= i < self.modules@.len() && #[trigger] self.modules@[i].0@ == k;
                        self.lemma_lookup(i);
                        if i < n {
                            assert(self.modules@[i] == before[i]);
                            old(self).lemma_lookup(i);
                        }
                    }
                    assert(self@ =~= old(self)@.insert(key@, module));
                }
                (published, None)
            },
        }
    }
    /// The cached module for `dll`, loaded through `load` under its key when
    /// it is not cached yet. Invalid names fail before `load` is called, a
    /// cached module is shared without loading, and failed loads are not
    /// cached.
    pub fn get_or_load<F>(&mut self, dll: &str, load: F) -> (r: Result<Arc<SystemModule>, Win32Error>)
        where
            F: FnOnce(&str) -> Result<SystemModule, Win32Error>,
        requires
            old(self).wf(),
            forall|name: &str| #[trigger] load.requires((name,)),
        ensures
            final(self).wf(),
            !spec_is_bare_system_module_name(dll@) ==> r == Err::<Arc<SystemModule>, Win32Error>(
                Win32Error::InvalidModuleName,
            ) && final(self)@ == old(self)@,
            spec_is_bare_system_module_name(dll@) && old(self)@.contains_key(ascii_lowercase(dll@))
                ==> (r matches Ok(module) && *module == old(self)@[ascii_lowercase(dll@)])
                && final(self)@ == old(self)@,
            spec_is_bare_system_module_name(dll@) && !old(self)@.contains_key(ascii_lowercase(dll@))
                ==> match r {
                Ok(module) => final(self)@ == old(self)@.insert(ascii_lowercase(dll@), *module)
                    && exists|name: &str|
                    #![trigger call_ensures(load, (name,), Ok::<SystemModule, Win32Error>(*module))]
                    name@ == ascii_lowercase(dll@) && call_ensures(
                        load,
                        (name,),
                        Ok::<SystemModule, Win32Error>(*module),
                    ),
                Err(e) => final(self)@ == old(self)@ && exists|name: &str|
                    #![trigger call_ensures(load, (name,), Err::<SystemModule, Win32Error>(e))]
                    name@ == ascii_lowercase(dll@) && call_ensures(
                        load,
                        (name,),
                        Err::<SystemModule, Win32Error>(e),
                    ),
            },
    {
        let key = match module_key(dll) {
            Ok(key) => key,
            Err(e) => {
                return Err(e);
            },
        };
        match self.lookup(&key) {
            Some(module) => {
                return Ok(module);
            },
            None => {},
        }
        let name: &str = key.as_str();
        let outcome = load(name);
        let loaded = match outcome {
            Ok(module) => module,
            Err(e) => {
                assert(call_ensures(load, (name,), Err::<SystemModule, Win32Error>(e)));
                return Err(e);
            },
        };
        assert(call_ensures(load, (name,), Ok::<SystemModule, Win32Error>(loaded)));
        let (published, _) = self.publish(key, loaded);
        Ok(published)
    }
}


/// Names that differ only in the case of ASCII letters have the same cache key.
pub proof fn lemma_case_insensitive_key(a: Seq<char>, b: Seq<char>)
    requires
        a.len() == b.len(),
        forall|i: int| 0 <= i < a.len() ==> ascii_lower(#[trigger] a[i]) == ascii_lower(b[i]),
    ensures
        ascii_lowercase(a) == ascii_lowercase(b),
{
    assert(ascii_lowercase(a) =~= ascii_lowercase(b));
}

/// Once a module is cached under a name, every name with the same key finds
/// that same module.
pub proof fn lemma_cached_module_is_shared(
    cache: Map<Seq<char>, SystemModule>,
    loaded_as: Seq<char>,
    requested_as: Seq<char>,
    module: SystemModule,
)
    requires
        ascii_lowercase(loaded_as) == ascii_lowercase(requested_as),
        cache.contains_key(ascii_lowercase(loaded_as)),
        cache[ascii_lowercase(loaded_as)] == module,
    ensures
        cache.contains_key(ascii_lowercase(requested_as)),
        cache[ascii_lowercase(requested_as)] == module,
{
}

} // verus!
