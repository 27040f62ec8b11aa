//! The storage map: ledger entries by key. A rollback point keeps a copy of the whole
//! map, which is cheap because keys and entries are shared, never copied.
use crate::val::Hash256;
use crate::xdr::{LedgerEntry, LedgerEntryView, LedgerKey, LedgerKeyView};
use std::rc::Rc;
use vstd::prelude::*;

verus! {

/// One binding of the map: a key, and the entry kept under it, or `None` where the
/// entry was deleted.
pub type Binding = (Rc<LedgerKey>, Option<Rc<LedgerEntry>>);

/// The mathematical content of a binding.
pub type BindingView = (LedgerKeyView, Option<LedgerEntryView>);

/// Ledger entries by key. The map is a list of bindings in the order in which they
/// were made; a later binding of a key hides the earlier ones.
#[derive(Debug)]
pub struct StorageMap {
    pub bindings: Vec<Binding>,
}

pub open spec fn binding_view(b: Binding) -> BindingView {
    (
        b.0@,
        match b.1 {
            Some(e) => Some(e@),
            None => None,
        },
    )
}

impl View for StorageMap {
    type V = Seq<BindingView>;

    open spec fn view(&self) -> Seq<BindingView> {
        Seq::new(self.bindings@.len(), |i: int| binding_view(self.bindings@[i]))
    }
}

/// What the map holds for `key`: `None` where the key was never bound, `Some(None)`
/// where its entry was deleted, and the entry of the latest binding otherwise.
pub open spec fn spec_get(m: Seq<BindingView>, key: LedgerKeyView) -> Option<Option<LedgerEntryView>>
    decreases m.len(),
{
    if m.len() == 0 {
        None
    } else if m.last().0 == key {
        Some(m.last().1)
    } else {
        spec_get(m.drop_last(), key)
    }
}

/// The entry that is live under `key`, if there is one.
pub open spec fn spec_live(m: Seq<BindingView>, key: LedgerKeyView) -> Option<LedgerEntryView> {
    match spec_get(m, key) {
        Some(Some(e)) => Some(e),
        _ => None,
    }
}

/// Another pointer to the value that `r` points to. The contract says what the
/// documentation of `Rc::clone` says: the new pointer is to the same allocation, so
/// what it points to is the same value.
#[verifier::external_body]
fn rc_clone<T>(r: &Rc<T>) -> (res: Rc<T>)
    ensures
        res == *r,
{
    Rc::clone(r)
}

impl StorageMap {
    /// A map without bindings.
    pub fn new() -> (r: StorageMap)
        ensures
            r@ == Seq::<BindingView>::empty(),
    {
        let r = StorageMap { bindings: Vec::new() };
        r
    }

    /// Binds `key` to `entry`, or marks it deleted where `entry` is `None`.
    pub fn put(&mut self, key: LedgerKey, entry: Option<LedgerEntry>)
        ensures
            final(self)@ == old(self)@.push(
                (
                    key@,
                    match entry {
                        Some(e) => Some(e@),
                        None => None,
                    },
                ),
            ),
    {
        let e = match entry {
            Some(e) => Some(Rc::new(e)),
            None => None,
        };
        self.bindings.push((Rc::new(key), e));
    }

    /// The entry that is live under `key`, if there is one.
    pub fn get(&self, key: &LedgerKey) -> (r: Option<&LedgerEntry>)
        ensures
            match r {
                Some(e) => spec_live(self@, key@) == Some(e@),
                None => spec_live(self@, key@) is None,
            },
    {
        let mut i: usize = self.bindings.len();
        assert(self@.subrange(0, i as int) =~= self@);
        while i > 0
            invariant
                i <= self.bindings@.len(),
                spec_get(self@, key@) == spec_get(self@.subrange(0, i as int), key@),
            decreases i,
        {
            i -= 1;
            proof {
                let m = self@.subrange(0, i + 1);
                assert(m.drop_last() =~= self@.subrange(0, i as int));
            }
            if self.bindings[i].0.same(key) {
                return match &self.bindings[i].1 {
                    Some(e) => Some(e),
                    None => None,
                };
            }
        }
        None
    }

    /// A copy of the map. The copy shares its keys and entries with the map it was
    /// made from.
    pub fn clone(&self) -> (r: StorageMap)
        ensures
            r@ == self@,
    {
        let mut v: Vec<Binding> = Vec::new();
        let mut i: usize = 0;
        while i < self.bindings.len()
            invariant
                i <= self.bindings@.len(),
                v@.len() == i,
                forall|j: int| 0 <= j < i ==> v@[j] == self.bindings@[j],
            decreases self.bindings@.len() - i,
        {
            let k = rc_clone(&self.bindings[i].0);
            let e = match &self.bindings[i].1 {
                Some(e) => Some(rc_clone(e)),
                None => None,
            };
            v.push((k, e));
            i += 1;
        }
        let r = StorageMap { bindings: v };
        r
    }

    /// The number of bindings ever made and not rolled back.
    pub fn len(&self) -> (r: usize)
        ensures
            r == self@.len(),
    {
        self.bindings.len()
    }
}

/// The ledger as the host sees it.
#[derive(Debug)]
pub struct Storage {
    pub map: StorageMap,
}

impl View for Storage {
    type V = Seq<BindingView>;

    open spec fn view(&self) -> Seq<BindingView> {
        self.map@
    }
}

/// The key under which the executable of contract `id` is kept.
pub open spec fn contract_executable_key(id: Hash256) -> LedgerKeyView {
    LedgerKeyView::ContractData {
        contract_id: id,
        key: crate::xdr::ScValView::LedgerKeyContractExecutable,
    }
}

/// After a binding is made, its key gives its entry and every other key gives what it
/// gave before.
pub proof fn lemma_get_after_put(
    m: Seq<BindingView>,
    key: LedgerKeyView,
    entry: Option<LedgerEntryView>,
    other: LedgerKeyView,
)
    ensures
        spec_get(m.push((key, entry)), key) == Some(entry),
        other != key ==> spec_get(m.push((key, entry)), other) == spec_get(m, other),
{
    let m2 = m.push((key, entry));
    assert(m2.drop_last() =~= m);
}

} // verus!
