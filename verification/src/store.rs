//! A model of the hierarchical key/value configuration store the extension
//! registers itself in.
//!
//! A store holds keys, each named by its full hierarchical path; a key holds
//! an optional default value and a list of named values. Writes at some paths
//! may be refused by the store (`denied`), which models the system store's
//! permission failures; reads and deletes are never refused, and deleting
//! what is absent is a no-op — deletes are best-effort cleanup.
//!
//! The mathematical form of a store is [`StoreModel`]; every operation's
//! contract equates the new store with a spec-level transition function, and
//! the characterization lemmas describe each transition through the
//! observations `has_key`, `key_state`, `default_of` and `value_of`.
//!
//! The host-facing adapter mirrors these operations one-for-one onto the
//! system store; the transaction component is their only caller there.

use vstd::prelude::*;

use crate::errors::StoreFault;

verus! {

/// One named value of a key.
#[derive(Debug, Clone, PartialEq, Eq)]
pub struct ValueEntry {
    pub name: String,
    pub data: String,
}

/// Mathematical form of [`ValueEntry`].
pub struct ValueModel {
    pub name: Seq<char>,
    pub data: Seq<char>,
}

impl View for ValueEntry {
    type V = ValueModel;

    open spec fn view(&self) -> ValueModel {
        ValueModel { name: self.name@, data: self.data@ }
    }
}

/// One key of the store: its full path, its optional default value, and its
/// named values.
#[derive(Debug, Clone, PartialEq, Eq)]
pub struct StoreKey {
    pub path: String,
    pub default_value: Option<String>,
    pub values: Vec<ValueEntry>,
}

/// Mathematical form of [`StoreKey`].
#[verifier::ext_equal]
pub struct KeyModel {
    pub path: Seq<char>,
    pub default_value: Option<Seq<char>>,
    pub values: Seq<ValueModel>,
}

/// The view of an optional owned string.
pub open spec fn opt_text(o: Option<String>) -> Option<Seq<char>> {
    match o {
        None => None,
        Some(s) => Some(s@),
    }
}

/// The views of a vector of named values.
pub open spec fn val_views(vals: Seq<ValueEntry>) -> Seq<ValueModel> {
    vals.map(|i: int, v: ValueEntry| v@)
}

impl View for StoreKey {
    type V = KeyModel;

    open spec fn view(&self) -> KeyModel {
        KeyModel {
            path: self.path@,
            default_value: opt_text(self.default_value),
            values: val_views(self.values@),
        }
    }
}

impl KeyModel {
    /// Value names within a key are distinct.
    pub open spec fn wf(self) -> bool {
        forall|a: int, b: int|
            0 <= a < b < self.values.len() ==> self.values[a].name != self.values[b].name
    }
}

/// The hierarchical configuration store.
#[derive(Debug, Clone, PartialEq, Eq)]
pub struct ConfigStore {
    pub keys: Vec<StoreKey>,
    /// Paths at which this store refuses writes.
    pub denied: Vec<String>,
}

/// Mathematical form of [`ConfigStore`].
#[verifier::ext_equal]
pub struct StoreModel {
    pub keys: Seq<KeyModel>,
    pub denied: Seq<Seq<char>>,
}

impl View for ConfigStore {
    type V = StoreModel;

    open spec fn view(&self) -> StoreModel {
        StoreModel {
            keys: self.keys@.map(|i: int, k: StoreKey| k@),
            denied: self.denied@.map(|i: int, d: String| d@),
        }
    }
}

/// Whether `vals` holds a value named `n`.
pub open spec fn has_val(vals: Seq<ValueModel>, n: Seq<char>) -> bool {
    exists|j: int| 0 <= j < vals.len() && vals[j].name == n
}

/// The position of the value named `n` (meaningful when `has_val`).
pub open spec fn val_index(vals: Seq<ValueModel>, n: Seq<char>) -> int {
    choose|j: int| 0 <= j < vals.len() && vals[j].name == n
}

/// The data of the value named `n`, if any.
pub open spec fn val_lookup(vals: Seq<ValueModel>, n: Seq<char>) -> Option<Seq<char>> {
    if has_val(vals, n) {
        Some(vals[val_index(vals, n)].data)
    } else {
        None
    }
}

impl StoreModel {
    /// Key paths are distinct and every key is well formed.
    pub open spec fn wf(self) -> bool {
        &&& forall|i: int, j: int|
            0 <= i < j < self.keys.len() ==> self.keys[i].path != self.keys[j].path
        &&& forall|i: int| 0 <= i < self.keys.len() ==> (#[trigger] self.keys[i]).wf()
    }

    /// Whether a key with this path exists.
    pub open spec fn has_key(self, p: Seq<char>) -> bool {
        exists|i: int| 0 <= i < self.keys.len() && self.keys[i].path == p
    }

    /// The position of the key with this path (meaningful when `has_key`).
    pub open spec fn key_index(self, p: Seq<char>) -> int {
        choose|i: int| 0 <= i < self.keys.len() && self.keys[i].path == p
    }

    /// The key with this path, if any.
    pub open spec fn key_state(self, p: Seq<char>) -> Option<KeyModel> {
        if self.has_key(p) {
            Some(self.keys[self.key_index(p)])
        } else {
            None
        }
    }

    /// The default value at this path, if the key exists and has one.
    pub open spec fn default_of(self, p: Seq<char>) -> Option<Seq<char>> {
        match self.key_state(p) {
            Some(k) => k.default_value,
            None => None,
        }
    }

    /// The data of the named value at this path, if key and value exist.
    pub open spec fn value_of(self, p: Seq<char>, n: Seq<char>) -> Option<Seq<char>> {
        match self.key_state(p) {
            Some(k) => val_lookup(k.values, n),
            None => None,
        }
    }

    /// Whether the store refuses writes at this path.
    pub open spec fn is_denied(self, p: Seq<char>) -> bool {
        exists|i: int| 0 <= i < self.denied.len() && self.denied[i] == p
    }
}

/// Creating a key: a no-op when the path already exists, else a fresh empty
/// key is added.
pub open spec fn m_create_key(s: StoreModel, p: Seq<char>) -> StoreModel {
    if s.has_key(p) {
        s
    } else {
        StoreModel {
            keys: s.keys.push(KeyModel { path: p, default_value: None, values: Seq::empty() }),
            denied: s.denied,
        }
    }
}

/// Setting the default value of an existing key; absent key: no change.
pub open spec fn m_set_default(s: StoreModel, p: Seq<char>, v: Seq<char>) -> StoreModel {
    if s.has_key(p) {
        let i = s.key_index(p);
        let k = s.keys[i];
        StoreModel {
            keys: s.keys.update(
                i,
                KeyModel { path: k.path, default_value: Some(v), values: k.values },
            ),
            denied: s.denied,
        }
    } else {
        s
    }
}

/// Writing a named value of an existing key: overwrites the value of that
/// name or appends a new one; absent key: no change.
pub open spec fn m_set_value(s: StoreModel, p: Seq<char>, n: Seq<char>, v: Seq<char>) -> StoreModel {
    if s.has_key(p) {
        let i = s.key_index(p);
        let k = s.keys[i];
        let vals2 = if has_val(k.values, n) {
            k.values.update(val_index(k.values, n), ValueModel { name: n, data: v })
        } else {
            k.values.push(ValueModel { name: n, data: v })
        };
        StoreModel {
            keys: s.keys.update(
                i,
                KeyModel { path: k.path, default_value: k.default_value, values: vals2 },
            ),
            denied: s.denied,
        }
    } else {
        s
    }
}

/// Deleting a key, with whatever it holds; absent key: no change.
pub open spec fn m_delete_key(s: StoreModel, p: Seq<char>) -> StoreModel {
    if s.has_key(p) {
        StoreModel { keys: s.keys.remove(s.key_index(p)), denied: s.denied }
    } else {
        s
    }
}

/// Deleting one named value of a key; absent key or value: no change.
pub open spec fn m_delete_value(s: StoreModel, p: Seq<char>, n: Seq<char>) -> StoreModel {
    if s.has_key(p) {
        let i = s.key_index(p);
        let k = s.keys[i];
        if has_val(k.values, n) {
            StoreModel {
                keys: s.keys.update(
                    i,
                    KeyModel {
                        path: k.path,
                        default_value: k.default_value,
                        values: k.values.remove(val_index(k.values, n)),
                    },
                ),
                denied: s.denied,
            }
        } else {
            s
        }
    } else {
        s
    }
}

/// Replacing the key at position `i` by one with the same path keeps the
/// store well formed, makes that key the path's state, and observably
/// changes no other path.
pub proof fn lemma_update_key_props(s: StoreModel, i: int, k2: KeyModel)
    requires
        s.wf(),
        0 <= i < s.keys.len(),
        k2.path == s.keys[i].path,
        k2.wf(),
    ensures
        ({
            let m = StoreModel { keys: s.keys.update(i, k2), denied: s.denied };
            &&& m.wf()
            &&& m.has_key(k2.path)
            &&& m.key_state(k2.path) == Some(k2)
            &&& forall|q: Seq<char>| q != k2.path ==> m.key_state(q) == s.key_state(q)
            &&& forall|q: Seq<char>| m.has_key(q) == s.has_key(q)
        }),
{
    let m = StoreModel { keys: s.keys.update(i, k2), denied: s.denied };
    assert forall|q: Seq<char>| m.has_key(q) == s.has_key(q) by {
        if s.has_key(q) {
            let w = s.key_index(q);
            assert(m.keys[w].path == q);
        }
        if m.has_key(q) {
            let w = m.key_index(q);
            assert(s.keys[w].path == q);
        }
    }
    assert(m.has_key(k2.path)) by {
        assert(m.keys[i].path == k2.path);
    }
    assert(m.key_state(k2.path) == Some(k2)) by {
        let w = m.key_index(k2.path);
        assert(m.keys[w].path == k2.path);
        if w != i {
            assert(s.keys[w].path == s.keys[i].path);
            assert(false);
        }
    }
    assert forall|q: Seq<char>| q != k2.path implies m.key_state(q) == s.key_state(q) by {
        if s.has_key(q) {
            let w = s.key_index(q);
            assert(s.keys[w].path == q);
            assert(w != i);
            assert(m.keys[w].path == q);
            let w2 = m.key_index(q);
            assert(m.keys[w2].path == q);
            assert(w2 != i);
            if w2 != w {
                assert(s.keys[w2].path == s.keys[w].path);
                assert(false);
            }
        }
    }
}

/// Adding a key at a fresh path keeps the store well formed, makes the new
/// key that path's state, and observably changes no other path.
pub proof fn lemma_push_key_props(s: StoreModel, k2: KeyModel)
    requires
        s.wf(),
        !s.has_key(k2.path),
        k2.wf(),
    ensures
        ({
            let m = StoreModel { keys: s.keys.push(k2), denied: s.denied };
            &&& m.wf()
            &&& m.key_state(k2.path) == Some(k2)
            &&& forall|q: Seq<char>| q != k2.path ==> m.key_state(q) == s.key_state(q)
        }),
{
    let m = StoreModel { keys: s.keys.push(k2), denied: s.denied };
    let n = s.keys.len() as int;
    assert(m.keys[n] == k2);
    assert forall|i: int, j: int| 0 <= i < j < m.keys.len() implies m.keys[i].path
        != m.keys[j].path by {
        if j < n {
            assert(m.keys[i] == s.keys[i] && m.keys[j] == s.keys[j]);
        } else {
            assert(m.keys[i] == s.keys[i]);
            assert(s.keys[i].path == s.keys[i].path);
        }
    }
    assert(m.key_state(k2.path) == Some(k2)) by {
        assert(m.has_key(k2.path));
        let w = m.key_index(k2.path);
        if w != n {
            assert(s.keys[w].path == k2.path);
        }
    }
    assert forall|q: Seq<char>| q != k2.path implies m.key_state(q) == s.key_state(q) by {
        if s.has_key(q) {
            let w = s.key_index(q);
            assert(m.keys[w].path == q);
            let w2 = m.key_index(q);
            assert(m.keys[w2].path == q);
            assert(w2 != n);
            if w2 != w {
                assert(s.keys[w2].path == s.keys[w].path);
                assert(false);
            }
        } else {
            if m.has_key(q) {
                let w2 = m.key_index(q);
                assert(m.keys[w2].path == q);
                assert(w2 != n);
                assert(s.keys[w2].path == q);
                assert(false);
            }
        }
    }
}

/// Removing the key at `p` keeps the store well formed, leaves `p` absent,
/// and observably changes no other path.
pub proof fn lemma_delete_key_props(s: StoreModel, p: Seq<char>)
    requires
        s.wf(),
    ensures
        ({
            let m = m_delete_key(s, p);
            &&& m.wf()
            &&& m.denied == s.denied
            &&& !m.has_key(p)
            &&& forall|q: Seq<char>| q != p ==> m.key_state(q) == s.key_state(q)
        }),
{
    if s.has_key(p) {
        let i = s.key_index(p);
        let m = m_delete_key(s, p);
        assert forall|a: int, b: int| 0 <= a < b < m.keys.len() implies m.keys[a].path
            != m.keys[b].path by {
            let a0 = if a < i { a } else { a + 1 };
            let b0 = if b < i { b } else { b + 1 };
            assert(m.keys[a] == s.keys[a0] && m.keys[b] == s.keys[b0]);
        }
        assert forall|l: int| 0 <= l < m.keys.len() implies m.keys[l].path != p by {
            let l0 = if l < i { l } else { l + 1 };
            assert(m.keys[l] == s.keys[l0]);
            assert(s.keys[i].path == p);
            if l0 != i && s.keys[l0].path == p {
                assert(false);
            }
        }
        assert forall|q: Seq<char>| q != p implies m.key_state(q) == s.key_state(q) by {
            if s.has_key(q) {
                let w = s.key_index(q);
                assert(s.keys[w].path == q);
                assert(w != i);
                let wm = if w < i { w } else { w - 1 };
                assert(m.keys[wm] == s.keys[w]);
                assert(m.has_key(q));
                let w2 = m.key_index(q);
                let w20 = if w2 < i { w2 } else { w2 + 1 };
                assert(m.keys[w2] == s.keys[w20]);
                if w20 != w {
                    assert(s.keys[w20].path == s.keys[w].path);
                    assert(false);
                }
            } else {
                if m.has_key(q) {
                    let w2 = m.key_index(q);
                    let w20 = if w2 < i { w2 } else { w2 + 1 };
                    assert(m.keys[w2] == s.keys[w20]);
                    assert(false);
                }
            }
        }
    }
}

/// Creating a key keeps the store well formed and observably changes no
/// other path; the denied set never changes.
pub proof fn lemma_m_create_key_props(s: StoreModel, p: Seq<char>)
    requires
        s.wf(),
    ensures
        ({
            let m = m_create_key(s, p);
            &&& m.wf()
            &&& m.denied == s.denied
            &&& m.has_key(p)
            &&& forall|q: Seq<char>| q != p ==> m.key_state(q) == s.key_state(q)
        }),
{
    if !s.has_key(p) {
        let k2 = KeyModel { path: p, default_value: None, values: Seq::empty() };
        lemma_push_key_props(s, k2);
        let m = m_create_key(s, p);
        assert(m.keys[s.keys.len() as int].path == p);
    }
}

/// Setting a default value keeps the store well formed, keeps every path's
/// presence, and observably changes no other path.
pub proof fn lemma_m_set_default_props(s: StoreModel, p: Seq<char>, v: Seq<char>)
    requires
        s.wf(),
    ensures
        ({
            let m = m_set_default(s, p, v);
            &&& m.wf()
            &&& m.denied == s.denied
            &&& forall|q: Seq<char>| m.has_key(q) == s.has_key(q)
            &&& forall|q: Seq<char>| q != p ==> m.key_state(q) == s.key_state(q)
        }),
{
    if s.has_key(p) {
        let i = s.key_index(p);
        assert(s.keys[i].path == p);
        let k = s.keys[i];
        let k2 = KeyModel { path: k.path, default_value: Some(v), values: k.values };
        assert(k.wf());
        lemma_update_key_props(s, i, k2);
    }
}

/// Writing a named value keeps the store well formed, keeps every path's
/// presence, and observably changes no other path.
pub proof fn lemma_m_set_value_props(s: StoreModel, p: Seq<char>, n: Seq<char>, v: Seq<char>)
    requires
        s.wf(),
    ensures
        ({
            let m = m_set_value(s, p, n, v);
            &&& m.wf()
            &&& m.denied == s.denied
            &&& forall|q: Seq<char>| m.has_key(q) == s.has_key(q)
            &&& forall|q: Seq<char>| q != p ==> m.key_state(q) == s.key_state(q)
        }),
{
    if s.has_key(p) {
        let i = s.key_index(p);
        assert(s.keys[i].path == p);
        let k = s.keys[i];
        assert(k.wf());
        let vals2 = if has_val(k.values, n) {
            k.values.update(val_index(k.values, n), ValueModel { name: n, data: v })
        } else {
            k.values.push(ValueModel { name: n, data: v })
        };
        let k2 = KeyModel { path: k.path, default_value: k.default_value, values: vals2 };
        assert forall|a: int, b: int| 0 <= a < b < k2.values.len() implies k2.values[a].name
            != k2.values[b].name by {
            if has_val(k.values, n) {
                let cj = val_index(k.values, n);
                assert(k.values[cj].name == n);
                assert(k2.values[a].name == k.values[a].name);
                assert(k2.values[b].name == k.values[b].name);
            } else {
                if b == k.values.len() as int {
                    assert(k2.values[a] == k.values[a]);
                    if k.values[a].name == n {
                        assert(has_val(k.values, n));
                    }
                }
            }
        }
        lemma_update_key_props(s, i, k2);
    }
}

/// Deleting a named value keeps the store well formed, keeps every path's
/// presence, leaves that value absent, and observably changes nothing else.
pub proof fn lemma_m_delete_value_props(s: StoreModel, p: Seq<char>, n: Seq<char>)
    requires
        s.wf(),
    ensures
        ({
            let m = m_delete_value(s, p, n);
            &&& m.wf()
            &&& m.denied == s.denied
            &&& forall|q: Seq<char>| m.has_key(q) == s.has_key(q)
            &&& forall|q: Seq<char>| q != p ==> m.key_state(q) == s.key_state(q)
            &&& m.value_of(p, n) is None
            &&& forall|n2: Seq<char>| n2 != n ==> m.value_of(p, n2) == s.value_of(p, n2)
            &&& m.default_of(p) == s.default_of(p)
        }),
{
    if s.has_key(p) {
        let i = s.key_index(p);
        assert(s.keys[i].path == p);
        let k = s.keys[i];
        assert(k.wf());
        if has_val(k.values, n) {
            let j = val_index(k.values, n);
            assert(k.values[j].name == n);
            let vals2 = k.values.remove(j);
            let k2 = KeyModel { path: k.path, default_value: k.default_value, values: vals2 };
            assert forall|a: int, b: int| 0 <= a < b < vals2.len() implies vals2[a].name
                != vals2[b].name by {
                let a0 = if a < j { a } else { a + 1 };
                let b0 = if b < j { b } else { b + 1 };
                assert(vals2[a] == k.values[a0] && vals2[b] == k.values[b0]);
            }
            assert forall|l: int| 0 <= l < vals2.len() implies vals2[l].name != n by {
                let l0 = if l < j { l } else { l + 1 };
                assert(vals2[l] == k.values[l0]);
                if l0 != j && k.values[l0].name == n {
                    assert(false);
                }
            }
            assert(!has_val(vals2, n));
            assert forall|n2: Seq<char>| n2 != n implies val_lookup(vals2, n2) == val_lookup(
                k.values,
                n2,
            ) by {
                if has_val(k.values, n2) {
                    let w = val_index(k.values, n2);
                    assert(k.values[w].name == n2);
                    assert(w != j);
                    let wm = if w < j { w } else { w - 1 };
                    assert(vals2[wm] == k.values[w]);
                    assert(has_val(vals2, n2));
                    let w2 = val_index(vals2, n2);
                    let w20 = if w2 < j { w2 } else { w2 + 1 };
                    assert(vals2[w2] == k.values[w20]);
                    if w20 != w {
                        assert(k.values[w20].name == k.values[w].name);
                        assert(false);
                    }
                } else {
                    if has_val(vals2, n2) {
                        let w2 = val_index(vals2, n2);
                        let w20 = if w2 < j { w2 } else { w2 + 1 };
                        assert(vals2[w2] == k.values[w20]);
                        assert(false);
                    }
                }
            }
            lemma_update_key_props(s, i, k2);
        }
    }
}

impl ConfigStore {
    /// An empty store that refuses nothing.
    pub fn new() -> (r: ConfigStore)
        ensures
            r@.wf(),
            r@.keys.len() == 0,
            r@.denied.len() == 0,
    {
        ConfigStore { keys: Vec::new(), denied: Vec::new() }
    }

    /// Marks a path as refusing writes, modeling a permission failure of the
    /// system store at that path. Keys are untouched.
    pub fn deny_path(&mut self, path: &String)
        ensures
            final(self)@.keys == old(self)@.keys,
            final(self)@.is_denied(path@),
            forall|q: Seq<char>| old(self)@.is_denied(q) ==> final(self)@.is_denied(q),
            forall|q: Seq<char>|
                final(self)@.is_denied(q) ==> old(self)@.is_denied(q) || q == path@,
    {
        self.denied.push(path.clone());
        proof {
            assert(self@.denied =~= old(self)@.denied.push(path@));
            let n = old(self)@.denied.len() as int;
            assert(self@.denied[n] == path@);
            assert forall|q: Seq<char>| old(self)@.is_denied(q) implies self@.is_denied(q) by {
                let w = choose|i: int|
                    0 <= i < old(self)@.denied.len() && old(self)@.denied[i] == q;
                assert(self@.denied[w] == q);
            }
            assert forall|q: Seq<char>| self@.is_denied(q) implies old(self)@.is_denied(q) || q
                == path@ by {
                let w = choose|i: int| 0 <= i < self@.denied.len() && self@.denied[i] == q;
                if w < n {
                    assert(old(self)@.denied[w] == q);
                }
            }
        }
    }

    /// Whether the store refuses writes at this path.
    fn contains_denied(&self, path: &String) -> (r: bool)
        ensures
            r == self@.is_denied(path@),
    {
        let mut i: usize = 0;
        while i < self.denied.len()
            invariant
                i <= self.denied@.len(),
                forall|j: int| 0 <= j < i ==> self@.denied[j] != path@,
            decreases self.denied@.len() - i,
        {
            if self.denied[i] == *path {
                assert(self@.denied[i as int] == path@);
                return true;
            }
            i = i + 1;
        }
        false
    }

    /// The position of the first key with this path.
    fn find_key_index(&self, path: &String) -> (r: Option<usize>)
        ensures
            match r {
                Some(i) => i < self@.keys.len() && self@.keys[i as int].path == path@,
                None => !self@.has_key(path@),
            },
    {
        let mut i: usize = 0;
        while i < self.keys.len()
            invariant
                i <= self.keys@.len(),
                forall|j: int| 0 <= j < i ==> self@.keys[j].path != path@,
            decreases self.keys@.len() - i,
        {
            if self.keys[i].path == *path {
                assert(self@.keys[i as int].path == path@);
                return Some(i);
            }
            i = i + 1;
        }
        None
    }

    /// The position of the first value with this name.
    fn find_val_index(vals: &Vec<ValueEntry>, name: &String) -> (r: Option<usize>)
        ensures
            match r {
                Some(j) => j < val_views(vals@).len() && val_views(vals@)[j as int].name == name@,
                None => !has_val(val_views(vals@), name@),
            },
    {
        let mut j: usize = 0;
        while j < vals.len()
            invariant
                j <= vals@.len(),
                forall|l: int| 0 <= l < j ==> val_views(vals@)[l].name != name@,
            decreases vals@.len() - j,
        {
            if vals[j].name == *name {
                assert(val_views(vals@)[j as int].name == name@);
                return Some(j);
            }
            j = j + 1;
        }
        None
    }

    /// Whether a key with this path exists.
    pub fn key_exists(&self, path: &String) -> (r: bool)
        ensures
            r == self@.has_key(path@),
    {
        match self.find_key_index(path) {
            Some(i) => {
                assert(self@.has_key(path@));
                true
            },
            None => false,
        }
    }

    /// The default value at this path, if the key exists and has one.
    pub fn read_default(&self, path: &String) -> (r: Option<String>)
        requires
            self@.wf(),
        ensures
            opt_text(r) == self@.default_of(path@),
    {
        match self.find_key_index(path) {
            None => None,
            Some(i) => {
                proof {
                    let ci = self@.key_index(path@);
                    assert(self@.keys[ci].path == path@);
                    if ci != i as int {
                        assert(self@.keys[ci].path == self@.keys[i as int].path);
                    }
                }
                match &self.keys[i].default_value {
                    None => None,
                    Some(s) => Some(s.clone()),
                }
            },
        }
    }

    /// The data of the named value at this path, if key and value exist.
    pub fn read_value(&self, path: &String, name: &String) -> (r: Option<String>)
        requires
            self@.wf(),
        ensures
            opt_text(r) == self@.value_of(path@, name@),
    {
        match self.find_key_index(path) {
            None => None,
            Some(i) => {
                proof {
                    let ci = self@.key_index(path@);
                    assert(self@.keys[ci].path == path@);
                    if ci != i as int {
                        assert(self@.keys[ci].path == self@.keys[i as int].path);
                    }
                }
                let k = &self.keys[i];
                match Self::find_val_index(&k.values, name) {
                    None => None,
                    Some(j) => {
                        proof {
                            let vs = val_views(k.values@);
                            let cj = val_index(vs, name@);
                            assert(vs[cj].name == name@);
                            assert(self@.keys[i as int].wf());
                            if cj != j as int {
                                assert(vs[cj].name == vs[j as int].name);
                            }
                        }
                        Some(k.values[j].data.clone())
                    },
                }
            },
        }
    }

    /// Creates a key: fails only at a denied path; an existing key stays as
    /// it is (creation is an overwrite-tolerant no-op then).
    pub fn create_key(&mut self, path: &String) -> (r: Result<(), StoreFault>)
        requires
            old(self)@.wf(),
        ensures
            final(self)@.wf(),
            r is Ok <==> !old(self)@.is_denied(path@),
            r is Ok ==> final(self)@ == m_create_key(old(self)@, path@),
            r is Err ==> final(self)@ == old(self)@ && r == Err::<(), StoreFault>(
                StoreFault::AccessDenied,
            ),
    {
        if self.contains_denied(path) {
            return Err(StoreFault::AccessDenied);
        }
        match self.find_key_index(path) {
            Some(_) => {
                assert(self@.has_key(path@));
                Ok(())
            },
            None => {
                let fresh = StoreKey { path: path.clone(), default_value: None, values: Vec::new() };
                proof {
                    assert(fresh@ =~= KeyModel {
                        path: path@,
                        default_value: None,
                        values: Seq::empty(),
                    });
                }
                self.keys.push(fresh);
                proof {
                    assert(self@.keys =~= old(self)@.keys.push(
                        KeyModel { path: path@, default_value: None, values: Seq::empty() },
                    ));
                    assert(self@ =~= m_create_key(old(self)@, path@));
                    lemma_push_key_props(
                        old(self)@,
                        KeyModel { path: path@, default_value: None, values: Seq::empty() },
                    );
                }
                Ok(())
            },
        }
    }

    /// Sets the default value of a key: fails at a denied path and on a key
    /// that does not exist.
    pub fn set_default(&mut self, path: &String, value: &String) -> (r: Result<(), StoreFault>)
        requires
            old(self)@.wf(),
        ensures
            final(self)@.wf(),
            r is Ok <==> !old(self)@.is_denied(path@) && old(self)@.has_key(path@),
            r is Ok ==> final(self)@ == m_set_default(old(self)@, path@, value@),
            r is Err ==> final(self)@ == old(self)@,
            old(self)@.is_denied(path@) ==> r == Err::<(), StoreFault>(StoreFault::AccessDenied),
            !old(self)@.is_denied(path@) && !old(self)@.has_key(path@) ==> r == Err::<
                (),
                StoreFault,
            >(StoreFault::KeyNotFound),
    {
        if self.contains_denied(path) {
            return Err(StoreFault::AccessDenied);
        }
        match self.find_key_index(path) {
            None => Err(StoreFault::KeyNotFound),
            Some(i) => {
                let mut k = self.keys.remove(i);
                k.default_value = Some(value.clone());
                let ghost k2 = k@;
                self.keys.insert(i, k);
                proof {
                    let ci = old(self)@.key_index(path@);
                    assert(old(self)@.keys[ci].path == path@);
                    if ci != i as int {
                        assert(old(self)@.keys[ci].path == old(self)@.keys[i as int].path);
                    }
                    assert(self@.keys =~= old(self)@.keys.update(i as int, k2));
                    assert(k2 =~= KeyModel {
                        path: old(self)@.keys[i as int].path,
                        default_value: Some(value@),
                        values: old(self)@.keys[i as int].values,
                    });
                    assert(self@ =~= m_set_default(old(self)@, path@, value@));
                    assert(old(self)@.keys[i as int].wf());
                    lemma_update_key_props(old(self)@, i as int, k2);
                }
                Ok(())
            },
        }
    }

    /// Writes a named value of a key, overwriting a value of the same name:
    /// fails at a denied path and on a key that does not exist.
    pub fn set_value(&mut self, path: &String, name: &String, value: &String) -> (r: Result<
        (),
        StoreFault,
    >)
        requires
            old(self)@.wf(),
        ensures
            final(self)@.wf(),
            r is Ok <==> !old(self)@.is_denied(path@) && old(self)@.has_key(path@),
            r is Ok ==> final(self)@ == m_set_value(old(self)@, path@, name@, value@),
            r is Err ==> final(self)@ == old(self)@,
            old(self)@.is_denied(path@) ==> r == Err::<(), StoreFault>(StoreFault::AccessDenied),
            !old(self)@.is_denied(path@) && !old(self)@.has_key(path@) ==> r == Err::<
                (),
                StoreFault,
            >(StoreFault::KeyNotFound),
    {
        if self.contains_denied(path) {
            return Err(StoreFault::AccessDenied);
        }
        match self.find_key_index(path) {
            None => Err(StoreFault::KeyNotFound),
            Some(i) => {
                let mut k = self.keys.remove(i);
                let ghost kv0 = k@.values;
                let entry = ValueEntry { name: name.clone(), data: value.clone() };
                proof {
                    assert(entry@ =~= ValueModel { name: name@, data: value@ });
                }
                match Self::find_val_index(&k.values, name) {
                    Some(j) => {
                        k.values.remove(j);
                        k.values.insert(j, entry);
                        proof {
                            assert(old(self)@.keys[i as int].wf());
                            let cj = val_index(kv0, name@);
                            assert(kv0[cj].name == name@);
                            if cj != j as int {
                                assert(kv0[cj].name == kv0[j as int].name);
                            }
                            assert(val_views(k.values@) =~= kv0.update(
                                j as int,
                                ValueModel { name: name@, data: value@ },
                            ));
                        }
                    },
                    None => {
                        k.values.push(entry);
                        proof {
                            assert(val_views(k.values@) =~= kv0.push(
                                ValueModel { name: name@, data: value@ },
                            ));
                        }
                    },
                }
                let ghost k2 = k@;
                self.keys.insert(i, k);
                proof {
                    let ci = old(self)@.key_index(path@);
                    assert(old(self)@.keys[ci].path == path@);
                    if ci != i as int {
                        assert(old(self)@.keys[ci].path == old(self)@.keys[i as int].path);
                    }
                    assert(self@.keys =~= old(self)@.keys.update(i as int, k2));
                    assert(self@ =~= m_set_value(old(self)@, path@, name@, value@));
                    // the new value list keeps names distinct
                    let k0 = old(self)@.keys[i as int];
                    assert(k0.wf());
                    assert forall|a: int, b: int| 0 <= a < b < k2.values.len() implies k2.values[a].name
                        != k2.values[b].name by {
                        if has_val(k0.values, name@) {
                            let cj = val_index(k0.values, name@);
                        } else {
                            if b == k0.values.len() as int {
                                assert(k2.values[a] == k0.values[a]);
                                assert(!has_val(k0.values, name@));
                                if k0.values[a].name == name@ {
                                    assert(has_val(k0.values, name@));
                                }
                            }
                        }
                    }
                    lemma_update_key_props(old(self)@, i as int, k2);
                }
                Ok(())
            },
        }
    }

    /// Deletes a key with whatever it holds; deleting an absent key is a
    /// no-op. Deletion is unconditional, forceful cleanup: it does not check
    /// what the key holds.
    pub fn delete_key(&mut self, path: &String)
        requires
            old(self)@.wf(),
        ensures
            final(self)@.wf(),
            final(self)@ == m_delete_key(old(self)@, path@),
    {
        match self.find_key_index(path) {
            None => {
                proof {
                    lemma_delete_key_props(old(self)@, path@);
                }
            },
            Some(i) => {
                self.keys.remove(i);
                proof {
                    let ci = old(self)@.key_index(path@);
                    assert(old(self)@.keys[ci].path == path@);
                    if ci != i as int {
                        assert(old(self)@.keys[ci].path == old(self)@.keys[i as int].path);
                    }
                    assert(self@.keys =~= old(self)@.keys.remove(i as int));
                    assert(self@ =~= m_delete_key(old(self)@, path@));
                    lemma_delete_key_props(old(self)@, path@);
                }
            },
        }
    }

    /// Deletes one named value of a key; an absent key or value is a no-op.
    pub fn delete_value(&mut self, path: &String, name: &String)
        requires
            old(self)@.wf(),
        ensures
            final(self)@.wf(),
            final(self)@ == m_delete_value(old(self)@, path@, name@),
    {
        match self.find_key_index(path) {
            None => {
            },
            Some(i) => {
                proof {
                    let ci = old(self)@.key_index(path@);
                    assert(old(self)@.keys[ci].path == path@);
                    if ci != i as int {
                        assert(old(self)@.keys[ci].path == old(self)@.keys[i as int].path);
                    }
                }
                let mut k = self.keys.remove(i);
                let ghost kv0 = k@.values;
                match Self::find_val_index(&k.values, name) {
                    None => {
                        self.keys.insert(i, k);
                        proof {
                            assert(self@.keys =~= old(self)@.keys);
                            assert(self@ =~= old(self)@);
                            assert(self@ =~= m_delete_value(old(self)@, path@, name@));
                        }
                    },
                    Some(j) => {
                        k.values.remove(j);
                        let ghost k2 = k@;
                        self.keys.insert(i, k);
                        proof {
                            assert(old(self)@.keys[i as int].wf());
                            let cj = val_index(kv0, name@);
                            assert(kv0[cj].name == name@);
                            if cj != j as int {
                                assert(kv0[cj].name == kv0[j as int].name);
                            }
                            assert(val_views(k.values@) =~= kv0.remove(j as int));
                            assert(self@.keys =~= old(self)@.keys.update(i as int, k2));
                            assert(self@ =~= m_delete_value(old(self)@, path@, name@));
                            let k0 = old(self)@.keys[i as int];
                            assert forall|a: int, b: int|
                                0 <= a < b < k2.values.len() implies k2.values[a].name
                                != k2.values[b].name by {
                                let a0 = if a < j as int { a } else { a + 1 };
                                let b0 = if b < j as int { b } else { b + 1 };
                                assert(k2.values[a] == k0.values[a0]);
                                assert(k2.values[b] == k0.values[b0]);
                            }
                            lemma_update_key_props(old(self)@, i as int, k2);
                        }
                    },
                }
            },
        }
    }
}

} // verus!
