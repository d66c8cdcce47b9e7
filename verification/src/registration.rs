//! The registration transaction: the ordered list of configuration-store
//! entries that make the host aware the extension exists, applied and
//! unapplied as one logical unit.
//!
//! `apply` writes the entries in build order and stops at the first entry
//! the store refuses, leaving earlier writes in place — the caller drives the
//! compensating `unapply`, which deletes in reverse build order and
//! tolerates entries that are already absent. The writes are not atomic at
//! the store level: this is a best-effort ordered apply with caller-driven
//! rollback, not a true transaction. Unapply is forceful cleanup: it deletes
//! a created key unconditionally, even if another actor rewrote it after
//! apply; for an entry that only writes values into a pre-existing key it
//! deletes exactly those named values and leaves the key.

use vstd::prelude::*;

use crate::errors::ShellError;
use crate::errors::StoreFault;
use crate::ident::component_id_string;
use crate::ident::component_id_text;
use crate::store::ConfigStore;
use crate::store::StoreModel;
use crate::store::ValueEntry;
use crate::store::ValueModel;
use crate::store::m_create_key;
use crate::store::m_delete_key;
use crate::store::m_delete_value;
use crate::store::m_set_default;
use crate::store::m_set_value;
use crate::store::opt_text;
use crate::store::val_views;

verus! {

/// One registration entry: a store path, whether this entry creates (and on
/// unapply deletes) the key itself, an optional default value, and named
/// values to write there.
#[derive(Debug, Clone, PartialEq, Eq)]
pub struct RegEntry {
    pub path: String,
    pub create: bool,
    pub default_value: Option<String>,
    pub values: Vec<ValueEntry>,
}

/// Mathematical form of [`RegEntry`].
pub struct EntryModel {
    pub path: Seq<char>,
    pub create: bool,
    pub default_value: Option<Seq<char>>,
    pub values: Seq<ValueModel>,
}

impl View for RegEntry {
    type V = EntryModel;

    open spec fn view(&self) -> EntryModel {
        EntryModel {
            path: self.path@,
            create: self.create,
            default_value: opt_text(self.default_value),
            values: val_views(self.values@),
        }
    }
}

/// An ordered sequence of registration entries, applied and unapplied as one
/// logical unit. Constructed fresh for each install or uninstall; never
/// persisted.
#[derive(Debug, Clone, PartialEq, Eq)]
pub struct RegTransaction {
    pub entries: Vec<RegEntry>,
}

impl View for RegTransaction {
    type V = Seq<EntryModel>;

    open spec fn view(&self) -> Seq<EntryModel> {
        self.entries@.map(|i: int, e: RegEntry| e@)
    }
}

/// Why a write at `p` would be refused, if it would be.
pub open spec fn write_fault(s: StoreModel, p: Seq<char>) -> Option<StoreFault> {
    if s.is_denied(p) {
        Some(StoreFault::AccessDenied)
    } else if !s.has_key(p) {
        Some(StoreFault::KeyNotFound)
    } else {
        None
    }
}

/// Writing a list of named values at `p`, stopping at the first fault.
pub open spec fn vals_apply(s: StoreModel, p: Seq<char>, vals: Seq<ValueModel>) -> (
    StoreModel,
    Option<StoreFault>,
)
    decreases vals.len(),
{
    if vals.len() == 0 {
        (s, None)
    } else {
        match write_fault(s, p) {
            Some(f) => (s, Some(f)),
            None => vals_apply(m_set_value(s, p, vals[0].name, vals[0].data), p, vals.drop_first()),
        }
    }
}

/// Applying one entry: create the key if the entry does, then the default
/// value, then the named values, stopping at the first fault.
pub open spec fn entry_apply(s: StoreModel, e: EntryModel) -> (StoreModel, Option<StoreFault>) {
    if e.create && s.is_denied(e.path) {
        (s, Some(StoreFault::AccessDenied))
    } else {
        let s1 = if e.create {
            m_create_key(s, e.path)
        } else {
            s
        };
        match e.default_value {
            Some(v) => {
                match write_fault(s1, e.path) {
                    Some(f) => (s1, Some(f)),
                    None => vals_apply(m_set_default(s1, e.path, v), e.path, e.values),
                }
            },
            None => vals_apply(s1, e.path, e.values),
        }
    }
}

/// Applying the entries in build order, stopping at the first entry the
/// store refuses; the second component carries that entry's path and the
/// underlying fault. Earlier writes stay in place.
pub open spec fn tx_apply(s: StoreModel, entries: Seq<EntryModel>) -> (
    StoreModel,
    Option<(Seq<char>, StoreFault)>,
)
    decreases entries.len(),
{
    if entries.len() == 0 {
        (s, None)
    } else {
        let (s1, f) = entry_apply(s, entries[0]);
        match f {
            Some(fault) => (s1, Some((entries[0].path, fault))),
            None => tx_apply(s1, entries.drop_first()),
        }
    }
}

/// Deleting a list of named values at `p`, in reverse order.
pub open spec fn vals_unapply(s: StoreModel, p: Seq<char>, vals: Seq<ValueModel>) -> StoreModel
    decreases vals.len(),
{
    if vals.len() == 0 {
        s
    } else {
        vals_unapply(m_delete_value(s, p, vals.last().name), p, vals.drop_last())
    }
}

/// Unapplying one entry: a created key is deleted whole; an entry that only
/// wrote values has exactly those values deleted.
pub open spec fn entry_unapply(s: StoreModel, e: EntryModel) -> StoreModel {
    if e.create {
        m_delete_key(s, e.path)
    } else {
        vals_unapply(s, e.path, e.values)
    }
}

/// Unapplying the entries in reverse build order.
pub open spec fn tx_unapply(s: StoreModel, entries: Seq<EntryModel>) -> StoreModel
    decreases entries.len(),
{
    if entries.len() == 0 {
        s
    } else {
        tx_unapply(entry_unapply(s, entries.last()), entries.drop_last())
    }
}

/// Applying values keeps the store well formed, never changes the denied
/// set, and observably changes no path but the one written.
pub proof fn lemma_vals_apply_props(s: StoreModel, p: Seq<char>, vals: Seq<ValueModel>, q: Seq<char>)
    requires
        s.wf(),
    ensures
        ({
            let m = vals_apply(s, p, vals).0;
            &&& m.wf()
            &&& m.denied == s.denied
            &&& q != p ==> m.key_state(q) == s.key_state(q)
        }),
    decreases vals.len(),
{
    if vals.len() > 0 && write_fault(s, p) is None {
        crate::store::lemma_m_set_value_props(s, p, vals[0].name, vals[0].data);
        lemma_vals_apply_props(
            m_set_value(s, p, vals[0].name, vals[0].data),
            p,
            vals.drop_first(),
            q,
        );
    }
}

/// Applying one entry keeps the store well formed, never changes the denied
/// set, and observably changes no path but the entry's own.
pub proof fn lemma_entry_apply_props(s: StoreModel, e: EntryModel, q: Seq<char>)
    requires
        s.wf(),
    ensures
        ({
            let m = entry_apply(s, e).0;
            &&& m.wf()
            &&& m.denied == s.denied
            &&& q != e.path ==> m.key_state(q) == s.key_state(q)
        }),
{
    if !(e.create && s.is_denied(e.path)) {
        let s1 = if e.create {
            m_create_key(s, e.path)
        } else {
            s
        };
        crate::store::lemma_m_create_key_props(s, e.path);
        match e.default_value {
            Some(v) => {
                if write_fault(s1, e.path) is None {
                    crate::store::lemma_m_set_default_props(s1, e.path, v);
                    lemma_vals_apply_props(m_set_default(s1, e.path, v), e.path, e.values, q);
                }
            },
            None => {
                lemma_vals_apply_props(s1, e.path, e.values, q);
            },
        }
    }
}

/// Applying a transaction keeps the store well formed, never changes the
/// denied set, and observably changes no path outside its entries.
pub proof fn lemma_tx_apply_props(s: StoreModel, entries: Seq<EntryModel>, q: Seq<char>)
    requires
        s.wf(),
    ensures
        ({
            let m = tx_apply(s, entries).0;
            &&& m.wf()
            &&& m.denied == s.denied
            &&& (forall|i: int| 0 <= i < entries.len() ==> (#[trigger] entries[i]).path != q)
                ==> m.key_state(q) == s.key_state(q)
        }),
    decreases entries.len(),
{
    if entries.len() > 0 {
        lemma_entry_apply_props(s, entries[0], q);
        let (s1, f) = entry_apply(s, entries[0]);
        if f is None {
            lemma_tx_apply_props(s1, entries.drop_first(), q);
            assert forall|i: int| 0 <= i < entries.drop_first().len() implies (#[trigger] entries.drop_first()[i]).path
                == entries[i + 1].path by {}
        }
    }
}

/// Unapplying values keeps the store well formed, never changes the denied
/// set, keeps every path's presence, observably changes no other path, and
/// never makes an absent value of the written path reappear.
pub proof fn lemma_vals_unapply_props(
    s: StoreModel,
    p: Seq<char>,
    vals: Seq<ValueModel>,
    q: Seq<char>,
    n: Seq<char>,
)
    requires
        s.wf(),
    ensures
        ({
            let m = vals_unapply(s, p, vals);
            &&& m.wf()
            &&& m.denied == s.denied
            &&& forall|q2: Seq<char>| m.has_key(q2) == s.has_key(q2)
            &&& q != p ==> m.key_state(q) == s.key_state(q)
            &&& s.value_of(p, n) is None ==> m.value_of(p, n) is None
        }),
    decreases vals.len(),
{
    if vals.len() > 0 {
        crate::store::lemma_m_delete_value_props(s, p, vals.last().name);
        lemma_vals_unapply_props(m_delete_value(s, p, vals.last().name), p, vals.drop_last(), q, n);
    }
}

/// After unapplying values, each of them is absent at the written path.
pub proof fn lemma_vals_unapply_absent(s: StoreModel, p: Seq<char>, vals: Seq<ValueModel>, j: int)
    requires
        s.wf(),
        0 <= j < vals.len(),
    ensures
        vals_unapply(s, p, vals).value_of(p, vals[j].name) is None,
    decreases vals.len(),
{
    let last_name = vals.last().name;
    let s1 = m_delete_value(s, p, last_name);
    crate::store::lemma_m_delete_value_props(s, p, last_name);
    if j == vals.len() - 1 {
        lemma_vals_unapply_props(s1, p, vals.drop_last(), p, vals[j].name);
    } else {
        lemma_vals_unapply_absent(s1, p, vals.drop_last(), j);
    }
}

/// Unapplying one entry keeps the store well formed, never changes the
/// denied set, observably changes no other path, and never makes an absent
/// key or value reappear.
pub proof fn lemma_entry_unapply_props(s: StoreModel, e: EntryModel, q: Seq<char>, n: Seq<char>)
    requires
        s.wf(),
    ensures
        ({
            let m = entry_unapply(s, e);
            &&& m.wf()
            &&& m.denied == s.denied
            &&& q != e.path ==> m.key_state(q) == s.key_state(q)
            &&& !s.has_key(q) ==> !m.has_key(q)
            &&& s.value_of(q, n) is None ==> m.value_of(q, n) is None
        }),
{
    if e.create {
        crate::store::lemma_delete_key_props(s, e.path);
    } else {
        lemma_vals_unapply_props(s, e.path, e.values, q, n);
    }
}

/// Unapplying a transaction keeps the store well formed, never changes the
/// denied set, observably changes no path outside its entries, and never
/// makes an absent key or value reappear.
pub proof fn lemma_tx_unapply_props(
    s: StoreModel,
    entries: Seq<EntryModel>,
    q: Seq<char>,
    n: Seq<char>,
)
    requires
        s.wf(),
    ensures
        ({
            let m = tx_unapply(s, entries);
            &&& m.wf()
            &&& m.denied == s.denied
            &&& (forall|i: int| 0 <= i < entries.len() ==> (#[trigger] entries[i]).path != q)
                ==> m.key_state(q) == s.key_state(q)
            &&& !s.has_key(q) ==> !m.has_key(q)
            &&& s.value_of(q, n) is None ==> m.value_of(q, n) is None
        }),
    decreases entries.len(),
{
    if entries.len() > 0 {
        let e = entries.last();
        lemma_entry_unapply_props(s, e, q, n);
        lemma_tx_unapply_props(entry_unapply(s, e), entries.drop_last(), q, n);
        assert forall|i: int| 0 <= i < entries.drop_last().len() implies (#[trigger] entries.drop_last()[i]).path
            == entries[i].path by {}
    }
}

/// After unapplying a transaction — whatever the store held before — every
/// key a create-entry names is absent, and so is every named value a
/// value-only entry writes.
pub proof fn lemma_tx_unapply_cleans(s: StoreModel, entries: Seq<EntryModel>)
    requires
        s.wf(),
    ensures
        ({
            let m = tx_unapply(s, entries);
            &&& m.wf()
            &&& forall|i: int|
                0 <= i < entries.len() && (#[trigger] entries[i]).create ==> !m.has_key(
                    entries[i].path,
                )
            &&& forall|i: int, j: int|
                0 <= i < entries.len() && !(#[trigger] entries[i]).create && 0 <= j
                    < entries[i].values.len() ==> m.value_of(
                    entries[i].path,
                    (#[trigger] entries[i].values[j]).name,
                ) is None
        }),
    decreases entries.len(),
{
    if entries.len() > 0 {
        let e = entries.last();
        let s1 = entry_unapply(s, e);
        lemma_entry_unapply_props(s, e, e.path, e.path);
        lemma_tx_unapply_cleans(s1, entries.drop_last());
        let m = tx_unapply(s, entries);
        let last: int = entries.len() - 1;
        assert forall|i: int| 0 <= i < entries.len() && (#[trigger] entries[i]).create implies !m.has_key(
            entries[i].path,
        ) by {
            if i == last {
                crate::store::lemma_delete_key_props(s, e.path);
                lemma_tx_unapply_props(s1, entries.drop_last(), e.path, e.path);
            } else {
                assert(entries.drop_last()[i] == entries[i]);
            }
        }
        assert forall|i: int, j: int|
            0 <= i < entries.len() && !(#[trigger] entries[i]).create && 0 <= j
                < entries[i].values.len() implies m.value_of(
            entries[i].path,
            (#[trigger] entries[i].values[j]).name,
        ) is None by {
            if i == last {
                lemma_vals_unapply_absent(s, e.path, e.values, j);
                lemma_tx_unapply_props(s1, entries.drop_last(), e.path, e.values[j].name);
            } else {
                assert(entries.drop_last()[i] == entries[i]);
            }
        }
    }
}

/// Applying a transaction and then unapplying it — whether or not the apply
/// ran to completion — leaves every key a create-entry names absent, every
/// named value of a value-only entry absent, and every path outside the
/// transaction's entries exactly as it was. A key that pre-existed at a
/// create-entry's path is deleted, not restored: unapply is forceful
/// cleanup.
pub proof fn lemma_apply_then_unapply(s0: StoreModel, entries: Seq<EntryModel>)
    requires
        s0.wf(),
    ensures
        ({
            let s1 = tx_apply(s0, entries).0;
            let s2 = tx_unapply(s1, entries);
            &&& s2.wf()
            &&& forall|i: int|
                0 <= i < entries.len() && (#[trigger] entries[i]).create ==> !s2.has_key(
                    entries[i].path,
                )
            &&& forall|i: int, j: int|
                0 <= i < entries.len() && !(#[trigger] entries[i]).create && 0 <= j
                    < entries[i].values.len() ==> s2.value_of(
                    entries[i].path,
                    (#[trigger] entries[i].values[j]).name,
                ) is None
            &&& forall|q: Seq<char>|
                (forall|i: int| 0 <= i < entries.len() ==> (#[trigger] entries[i]).path != q)
                    ==> #[trigger] s2.key_state(q) == s0.key_state(q)
        }),
{
    let s1 = tx_apply(s0, entries).0;
    lemma_tx_apply_props(s0, entries, Seq::empty());
    lemma_tx_unapply_cleans(s1, entries);
    assert forall|q: Seq<char>|
        (forall|i: int| 0 <= i < entries.len() ==> (#[trigger] entries[i]).path != q) implies #[trigger] tx_unapply(
        s1,
        entries,
    ).key_state(q) == s0.key_state(q) by {
        lemma_tx_apply_props(s0, entries, q);
        lemma_tx_unapply_props(s1, entries, q, q);
    }
}

/// Unapplying values that are all already absent changes nothing at all.
pub proof fn lemma_vals_unapply_noop(s: StoreModel, p: Seq<char>, vals: Seq<ValueModel>)
    requires
        forall|j: int| 0 <= j < vals.len() ==> s.value_of(p, (#[trigger] vals[j]).name) is None,
    ensures
        vals_unapply(s, p, vals) == s,
    decreases vals.len(),
{
    if vals.len() > 0 {
        let last: int = vals.len() - 1;
        assert(s.value_of(p, vals[last].name) is None);
        assert(m_delete_value(s, p, vals.last().name) == s);
        lemma_vals_unapply_noop(s, p, vals.drop_last());
    }
}

/// Unapplying a transaction none of whose entries exist — no create-entry's
/// key is present and no value-only entry's value is present — succeeds and
/// changes nothing at all.
pub proof fn lemma_unapply_absent_noop(s: StoreModel, entries: Seq<EntryModel>)
    requires
        forall|i: int|
            0 <= i < entries.len() && (#[trigger] entries[i]).create ==> !s.has_key(
                entries[i].path,
            ),
        forall|i: int, j: int|
            0 <= i < entries.len() && !(#[trigger] entries[i]).create && 0 <= j
                < entries[i].values.len() ==> s.value_of(
                entries[i].path,
                (#[trigger] entries[i].values[j]).name,
            ) is None,
    ensures
        tx_unapply(s, entries) == s,
    decreases entries.len(),
{
    if entries.len() > 0 {
        let e = entries.last();
        let last: int = entries.len() - 1;
        if e.create {
            assert(!s.has_key(e.path));
            assert(entry_unapply(s, e) == s);
        } else {
            assert forall|j: int| 0 <= j < e.values.len() implies s.value_of(
                e.path,
                (#[trigger] e.values[j]).name,
            ) is None by {
                assert(entries[last].values[j] == e.values[j]);
            }
            lemma_vals_unapply_noop(s, e.path, e.values);
        }
        assert forall|i: int|
            0 <= i < entries.drop_last().len() && (#[trigger] entries.drop_last()[i]).create implies !s.has_key(
            entries.drop_last()[i].path,
        ) by {
            assert(entries.drop_last()[i] == entries[i]);
        }
        assert forall|i: int, j: int|
            0 <= i < entries.drop_last().len() && !(#[trigger] entries.drop_last()[i]).create && 0
                <= j < entries.drop_last()[i].values.len() implies s.value_of(
            entries.drop_last()[i].path,
            (#[trigger] entries.drop_last()[i].values[j]).name,
        ) is None by {
            assert(entries.drop_last()[i] == entries[i]);
        }
        lemma_unapply_absent_noop(s, entries.drop_last());
    }
}

/// Applies one entry against the store, stopping at the first refused write.
fn apply_one(store: &mut ConfigStore, e: &RegEntry) -> (r: Result<(), StoreFault>)
    requires
        old(store)@.wf(),
    ensures
        final(store)@.wf(),
        final(store)@ == entry_apply(old(store)@, e@).0,
        match r {
            Ok(()) => entry_apply(old(store)@, e@).1 is None,
            Err(f) => entry_apply(old(store)@, e@).1 == Some(f),
        },
{
    if e.create {
        match store.create_key(&e.path) {
            Err(f) => {
                return Err(f);
            },
            Ok(()) => {},
        }
    }
    match &e.default_value {
        Some(v) => {
            match store.set_default(&e.path, v) {
                Err(f) => {
                    return Err(f);
                },
                Ok(()) => {},
            }
        },
        None => {},
    }
    let ghost e_model = e@;
    let ghost s_mid = store@;
    proof {
        assert(e_model.values.skip(0) =~= e_model.values);
        assert(entry_apply(old(store)@, e_model) == vals_apply(
            s_mid,
            e_model.path,
            e_model.values.skip(0),
        ));
    }
    let mut i: usize = 0;
    while i < e.values.len()
        invariant
            store@.wf(),
            i <= e.values@.len(),
            e_model == e@,
            e_model.values.len() == e.values@.len(),
            entry_apply(old(store)@, e_model) == vals_apply(
                store@,
                e_model.path,
                e_model.values.skip(i as int),
            ),
        decreases e.values@.len() - i,
    {
        let v = &e.values[i];
        let ghost s_pre = store@;
        proof {
            assert(e_model.values[i as int] == v@);
            assert(e_model.values.skip(i as int)[0] == e_model.values[i as int]);
        }
        match store.set_value(&e.path, &v.name, &v.data) {
            Err(f) => {
                proof {
                    assert(vals_apply(s_pre, e_model.path, e_model.values.skip(i as int)) == (
                        s_pre,
                        Some(f),
                    ));
                }
                return Err(f);
            },
            Ok(()) => {
                proof {
                    assert(e_model.values.skip(i as int).drop_first() =~= e_model.values.skip(
                        i as int + 1,
                    ));
                }
            },
        }
        i = i + 1;
    }
    proof {
        assert(e_model.values.skip(e.values@.len() as int) =~= Seq::<ValueModel>::empty());
    }
    Ok(())
}

/// Unapplies one entry against the store.
fn unapply_one(store: &mut ConfigStore, e: &RegEntry)
    requires
        old(store)@.wf(),
    ensures
        final(store)@.wf(),
        final(store)@ == entry_unapply(old(store)@, e@),
{
    if e.create {
        store.delete_key(&e.path);
    } else {
        let ghost e_model = e@;
        let mut j: usize = e.values.len();
        proof {
            assert(e_model.values.take(e.values@.len() as int) =~= e_model.values);
        }
        while j > 0
            invariant
                store@.wf(),
                j <= e.values@.len(),
                e_model == e@,
                e_model.values.len() == e.values@.len(),
                entry_unapply(old(store)@, e_model) == vals_unapply(
                    store@,
                    e_model.path,
                    e_model.values.take(j as int),
                ),
            decreases j,
        {
            j = j - 1;
            let v = &e.values[j];
            proof {
                assert(e_model.values.take(j as int + 1).last() == e_model.values[j as int]);
                assert(e_model.values[j as int] == v@);
                assert(e_model.values.take(j as int + 1).drop_last() =~= e_model.values.take(
                    j as int,
                ));
            }
            store.delete_value(&e.path, &v.name);
        }
        proof {
            assert(e_model.values.take(0) =~= Seq::<ValueModel>::empty());
        }
    }
}

impl RegTransaction {
    /// Writes the entries in build order. Fails on the first entry the store
    /// refuses, reporting that entry's path and the underlying fault, and
    /// does not roll back the earlier writes: the caller invokes `unapply`
    /// on failure. Applying twice overwrites with the same values.
    pub fn apply(&self, store: &mut ConfigStore) -> (r: Result<(), ShellError>)
        requires
            old(store)@.wf(),
        ensures
            final(store)@.wf(),
            final(store)@ == tx_apply(old(store)@, self@).0,
            r is Ok <==> tx_apply(old(store)@, self@).1 is None,
            r matches Err(err) ==> (tx_apply(old(store)@, self@).1 matches Some(pf)
                && err matches ShellError::RegistrationFailed { entry_path, fault }
                && entry_path@ == pf.0 && fault == pf.1),
    {
        let ghost tx = self@;
        proof {
            assert(tx.skip(0) =~= tx);
        }
        let mut i: usize = 0;
        while i < self.entries.len()
            invariant
                store@.wf(),
                i <= self.entries@.len(),
                tx == self@,
                tx.len() == self.entries@.len(),
                tx_apply(old(store)@, tx) == tx_apply(store@, tx.skip(i as int)),
            decreases self.entries@.len() - i,
        {
            let e = &self.entries[i];
            let ghost s_pre = store@;
            proof {
                assert(tx[i as int] == e@);
                assert(tx.skip(i as int)[0] == tx[i as int]);
            }
            match apply_one(store, e) {
                Err(f) => {
                    proof {
                        assert(tx_apply(s_pre, tx.skip(i as int)) == (
                            store@,
                            Some((e@.path, f)),
                        ));
                    }
                    return Err(
                        ShellError::RegistrationFailed { entry_path: e.path.clone(), fault: f },
                    );
                },
                Ok(()) => {
                    proof {
                        assert(tx.skip(i as int).drop_first() =~= tx.skip(i as int + 1));
                    }
                },
            }
            i = i + 1;
        }
        proof {
            assert(tx.skip(self.entries@.len() as int) =~= Seq::<EntryModel>::empty());
        }
        Ok(())
    }

    /// Deletes the entries' keys and values in reverse build order. Entries
    /// that are already absent are tolerated silently: unapply is
    /// best-effort cleanup and safe to run on a never-applied transaction or
    /// twice in a row.
    pub fn unapply(&self, store: &mut ConfigStore)
        requires
            old(store)@.wf(),
        ensures
            final(store)@.wf(),
            final(store)@ == tx_unapply(old(store)@, self@),
    {
        let ghost tx = self@;
        proof {
            assert(tx.take(self.entries@.len() as int) =~= tx);
        }
        let mut i: usize = self.entries.len();
        while i > 0
            invariant
                store@.wf(),
                i <= self.entries@.len(),
                tx == self@,
                tx.len() == self.entries@.len(),
                tx_unapply(old(store)@, tx) == tx_unapply(store@, tx.take(i as int)),
            decreases i,
        {
            i = i - 1;
            let e = &self.entries[i];
            proof {
                assert(tx.take(i as int + 1).last() == tx[i as int]);
                assert(tx[i as int] == e@);
                assert(tx.take(i as int + 1).drop_last() =~= tx.take(i as int));
            }
            unapply_one(store, e);
        }
        proof {
            assert(tx.take(0) =~= Seq::<EntryModel>::empty());
        }
    }
}

/// The entries of the standard registration transaction, in build order:
/// the component-identifier key, its in-process-server sub-key carrying the
/// module's on-disk path and the threading model, the context-menu-handler
/// registration key, and this extension's entry in the approved-extensions
/// list. The approved-extensions key is a pre-existing system key: that
/// entry only writes a value there and never creates or deletes the key.
pub open spec fn spec_standard_transaction(module_location: Seq<char>) -> Seq<EntryModel> {
    seq![
        EntryModel {
            path: "SOFTWARE\\Classes\\CLSID\\{5AB29D2B-CC1D-45A2-AF6E-6853BF59909B}"@,
            create: true,
            default_value: Some("My Rust Shell Extension Factory"@),
            values: Seq::empty(),
        },
        EntryModel {
            path:
                "SOFTWARE\\Classes\\CLSID\\{5AB29D2B-CC1D-45A2-AF6E-6853BF59909B}\\InprocServer32"@,
            create: true,
            default_value: Some(module_location),
            values: seq![ValueModel { name: "ThreadingModel"@, data: "Apartment"@ }],
        },
        EntryModel {
            path: "SOFTWARE\\Classes\\*\\ShellEx\\ContextMenuHandlers\\My Rust Shell Extension"@,
            create: true,
            default_value: Some(component_id_text()),
            values: Seq::empty(),
        },
        EntryModel {
            path: "SOFTWARE\\Microsoft\\Windows\\CurrentVersion\\Shell Extensions\\Approved"@,
            create: false,
            default_value: None,
            values: seq![
                ValueModel { name: component_id_text(), data: "My Rust Shell Extension"@ },
            ],
        },
    ]
}

/// Builds the standard registration transaction for a module loaded from
/// `module_location`.
pub fn standard_transaction(module_location: &String) -> (r: RegTransaction)
    ensures
        r@ == spec_standard_transaction(module_location@),
{
    let e1 = RegEntry {
        path: "SOFTWARE\\Classes\\CLSID\\{5AB29D2B-CC1D-45A2-AF6E-6853BF59909B}".to_owned(),
        create: true,
        default_value: Some("My Rust Shell Extension Factory".to_owned()),
        values: Vec::new(),
    };
    let e2 = RegEntry {
        path: "SOFTWARE\\Classes\\CLSID\\{5AB29D2B-CC1D-45A2-AF6E-6853BF59909B}\\InprocServer32"
            .to_owned(),
        create: true,
        default_value: Some(module_location.clone()),
        values: vec![
            ValueEntry { name: "ThreadingModel".to_owned(), data: "Apartment".to_owned() },
        ],
    };
    let e3 = RegEntry {
        path: "SOFTWARE\\Classes\\*\\ShellEx\\ContextMenuHandlers\\My Rust Shell Extension"
            .to_owned(),
        create: true,
        default_value: Some(component_id_string()),
        values: Vec::new(),
    };
    let e4 = RegEntry {
        path: "SOFTWARE\\Microsoft\\Windows\\CurrentVersion\\Shell Extensions\\Approved"
            .to_owned(),
        create: false,
        default_value: None,
        values: vec![
            ValueEntry {
                name: component_id_string(),
                data: "My Rust Shell Extension".to_owned(),
            },
        ],
    };
    let tx = RegTransaction { entries: vec![e1, e2, e3, e4] };
    proof {
        let m = spec_standard_transaction(module_location@);
        assert(tx@[0].values =~= m[0].values);
        assert(tx@[1].values =~= m[1].values);
        assert(tx@[2].values =~= m[2].values);
        assert(tx@[3].values =~= m[3].values);
        assert(tx@[0] =~= m[0]);
        assert(tx@[1] =~= m[1]);
        assert(tx@[2] =~= m[2]);
        assert(tx@[3] =~= m[3]);
        assert(tx@ =~= m);
    }
    tx
}

/// Installation: builds the standard transaction and applies it; on a
/// refused write it invokes the compensating unapply before surfacing the
/// failure — best-effort cleanup of the partial state, as the store offers
/// no multi-key commit primitive. The host-facing adapter additionally
/// notifies the host environment of the association change afterwards.
pub fn register_server(store: &mut ConfigStore, module_location: &String) -> (r: Result<
    (),
    ShellError,
>)
    requires
        old(store)@.wf(),
    ensures
        final(store)@.wf(),
        ({
            let tx = spec_standard_transaction(module_location@);
            let applied = tx_apply(old(store)@, tx);
            match applied.1 {
                None => r is Ok && final(store)@ == applied.0,
                Some(pf) => {
                    &&& final(store)@ == tx_unapply(applied.0, tx)
                    &&& (r matches Err(err) && err matches ShellError::RegistrationFailed {
                        entry_path,
                        fault,
                    } && entry_path@ == pf.0 && fault == pf.1)
                },
            }
        }),
{
    let tx = standard_transaction(module_location);
    match tx.apply(store) {
        Ok(()) => Ok(()),
        Err(err) => {
            tx.unapply(store);
            Err(err)
        },
    }
}

/// Removal: builds the standard transaction and unapplies it. Always
/// succeeds; entries that are already absent are tolerated. The host-facing
/// adapter additionally notifies the host environment of the association
/// change afterwards.
pub fn unregister_server(store: &mut ConfigStore, module_location: &String)
    requires
        old(store)@.wf(),
    ensures
        final(store)@.wf(),
        final(store)@ == tx_unapply(old(store)@, spec_standard_transaction(module_location@)),
{
    let tx = standard_transaction(module_location);
    tx.unapply(store);
}

} // verus!
