//! The objects of the object store. An object never changes once it is stored: an
//! operation that "modifies" one stores a new object and hands out a new handle.
use crate::budget::ContractCostType;
use crate::host::{Host, HostView};
use crate::val::{HostError, Object, ObjectKind, RawVal, ScErrorCode, ScErrorType};
use crate::xdr::{I256, ScAddress, ScContractExecutable, ScNonceKey, U256};
use vstd::prelude::*;

verus! {

/// The content of a sequence object.
pub type HostVec = Vec<RawVal>;

/// The content of a mapping object: pairs of key and value, in the order of the keys.
pub type HostMap = Vec<(RawVal, RawVal)>;

/// An object of the object store.
#[derive(Debug, PartialEq, Eq)]
pub enum HostObject {
    Vec(HostVec),
    OrdMap(HostMap),
    U64(u64),
    I64(i64),
    TimePoint(u64),
    Duration(u64),
    U128(u128),
    I128(i128),
    U256(U256),
    I256(I256),
    Bytes(Vec<u8>),
    String(Vec<u8>),
    Symbol(Vec<u8>),
    ContractExecutable(ScContractExecutable),
    Address(ScAddress),
    NonceKey(ScNonceKey),
}

/// The mathematical content of a [`HostObject`].
pub ghost enum HostObjectView {
    Vec(Seq<RawVal>),
    OrdMap(Seq<(RawVal, RawVal)>),
    U64(u64),
    I64(i64),
    TimePoint(u64),
    Duration(u64),
    U128(u128),
    I128(i128),
    U256(U256),
    I256(I256),
    Bytes(Seq<u8>),
    String(Seq<u8>),
    Symbol(Seq<u8>),
    ContractExecutable(ScContractExecutable),
    Address(ScAddress),
    NonceKey(ScNonceKey),
}

impl View for HostObject {
    type V = HostObjectView;

    open spec fn view(&self) -> HostObjectView {
        match self {
            HostObject::Vec(v) => HostObjectView::Vec(v@),
            HostObject::OrdMap(m) => HostObjectView::OrdMap(m@),
            HostObject::U64(x) => HostObjectView::U64(*x),
            HostObject::I64(x) => HostObjectView::I64(*x),
            HostObject::TimePoint(x) => HostObjectView::TimePoint(*x),
            HostObject::Duration(x) => HostObjectView::Duration(*x),
            HostObject::U128(x) => HostObjectView::U128(*x),
            HostObject::I128(x) => HostObjectView::I128(*x),
            HostObject::U256(x) => HostObjectView::U256(*x),
            HostObject::I256(x) => HostObjectView::I256(*x),
            HostObject::Bytes(b) => HostObjectView::Bytes(b@),
            HostObject::String(b) => HostObjectView::String(b@),
            HostObject::Symbol(b) => HostObjectView::Symbol(b@),
            HostObject::ContractExecutable(e) => HostObjectView::ContractExecutable(*e),
            HostObject::Address(a) => HostObjectView::Address(*a),
            HostObject::NonceKey(k) => HostObjectView::NonceKey(*k),
        }
    }
}

impl HostObjectView {
    /// The kind of handle under which the object is reached.
    pub open spec fn kind(self) -> ObjectKind {
        match self {
            HostObjectView::Vec(_) => ObjectKind::Vec,
            HostObjectView::OrdMap(_) => ObjectKind::OrdMap,
            HostObjectView::U64(_) => ObjectKind::U64,
            HostObjectView::I64(_) => ObjectKind::I64,
            HostObjectView::TimePoint(_) => ObjectKind::TimePoint,
            HostObjectView::Duration(_) => ObjectKind::Duration,
            HostObjectView::U128(_) => ObjectKind::U128,
            HostObjectView::I128(_) => ObjectKind::I128,
            HostObjectView::U256(_) => ObjectKind::U256,
            HostObjectView::I256(_) => ObjectKind::I256,
            HostObjectView::Bytes(_) => ObjectKind::Bytes,
            HostObjectView::String(_) => ObjectKind::String,
            HostObjectView::Symbol(_) => ObjectKind::Symbol,
            HostObjectView::ContractExecutable(_) => ObjectKind::ContractExecutable,
            HostObjectView::Address(_) => ObjectKind::Address,
            HostObjectView::NonceKey(_) => ObjectKind::NonceKey,
        }
    }
}

impl HostObject {
    /// The kind of handle under which the object is reached.
    pub fn kind(&self) -> (r: ObjectKind)
        ensures
            r == self@.kind(),
    {
        match self {
            HostObject::Vec(_) => ObjectKind::Vec,
            HostObject::OrdMap(_) => ObjectKind::OrdMap,
            HostObject::U64(_) => ObjectKind::U64,
            HostObject::I64(_) => ObjectKind::I64,
            HostObject::TimePoint(_) => ObjectKind::TimePoint,
            HostObject::Duration(_) => ObjectKind::Duration,
            HostObject::U128(_) => ObjectKind::U128,
            HostObject::I128(_) => ObjectKind::I128,
            HostObject::U256(_) => ObjectKind::U256,
            HostObject::I256(_) => ObjectKind::I256,
            HostObject::Bytes(_) => ObjectKind::Bytes,
            HostObject::String(_) => ObjectKind::String,
            HostObject::Symbol(_) => ObjectKind::Symbol,
            HostObject::ContractExecutable(_) => ObjectKind::ContractExecutable,
            HostObject::Address(_) => ObjectKind::Address,
            HostObject::NonceKey(_) => ObjectKind::NonceKey,
        }
    }
}

/// The views of the objects of a store, by handle.
pub open spec fn objects_view(objects: Seq<HostObject>) -> Seq<HostObjectView> {
    Seq::new(objects.len(), |i: int| objects[i]@)
}

/// A copy of a run of values.
pub fn rawvals_clone(a: &[RawVal]) -> (r: Vec<RawVal>)
    ensures
        r@ == a@,
{
    let mut v: Vec<RawVal> = Vec::new();
    let mut i: usize = 0;
    while i < a.len()
        invariant
            i <= a.len(),
            v@.len() == i,
            forall|j: int| 0 <= j < i ==> v@[j] == a@[j],
        decreases a.len() - i,
    {
        v.push(a[i]);
        i += 1;
    }
    v
}

/// The error that reports a full object store.
pub open spec fn object_limit_exceeded() -> HostError {
    HostError::spec_new(ScErrorType::Object, ScErrorCode::ExceededLimit)
}

/// The error that reports a handle that was never issued.
pub open spec fn unknown_reference() -> HostError {
    HostError::spec_new(ScErrorType::Object, ScErrorCode::MissingValue)
}

/// The error that reports a handle of one kind that leads to an object of another.
pub open spec fn unexpected_object_type() -> HostError {
    HostError::spec_new(ScErrorType::Object, ScErrorCode::UnexpectedType)
}

/// The number of handles that can be issued.
pub open spec fn object_capacity() -> nat {
    0x1_0000_0000
}

impl<C> HostView<C> {
    /// Whether `n` more objects can be stored.
    pub open spec fn has_object_room(self, n: nat) -> bool {
        self.objects.len() + n <= object_capacity()
    }

    /// The host after an attempt to store `obj`, and the handle issued for it. The
    /// attempt fails, and stores nothing, when no handle is left or when the charge for
    /// one allocation is not covered.
    pub open spec fn add_object(self, obj: HostObjectView) -> (HostView<C>, Result<Object, HostError>) {
        if !self.has_object_room(1) {
            (self, Err(object_limit_exceeded()))
        } else {
            let (charged, r) = self.charge(ContractCostType::HostMemAlloc, Some(1u64));
            match r {
                Err(e) => (charged, Err(e)),
                Ok(_) => (
                    HostView { objects: charged.objects.push(obj), ..charged },
                    Ok(Object { kind: obj.kind(), handle: self.objects.len() as u32 }),
                ),
            }
        }
    }

    /// The object that `obj` leads to: the handle must have been issued, and for an
    /// object of the kind that the handle says.
    pub open spec fn object_at(self, obj: Object) -> Result<HostObjectView, HostError> {
        if obj.handle >= self.objects.len() {
            Err(unknown_reference())
        } else if self.objects[obj.handle as int].kind() != obj.kind {
            Err(unexpected_object_type())
        } else {
            Ok(self.objects[obj.handle as int])
        }
    }

    /// Whether every object of `pre` is still there, under the handle it had.
    pub open spec fn keeps_objects_of(self, pre: HostView<C>) -> bool {
        pre.objects.is_prefix_of(self.objects)
    }
}

impl<C: Copy> Host<C> {
    /// Stores an object and issues a handle for it.
    pub fn add_host_object(&mut self, obj: HostObject) -> (r: Result<Object, HostError>)
        ensures
            final(self)@ == old(self)@.add_object(obj@).0,
            r == old(self)@.add_object(obj@).1,
    {
        let prev_len = self.objects_len();
        if prev_len > u32::MAX as usize {
            return Err(HostError::new(ScErrorType::Object, ScErrorCode::ExceededLimit));
        }
        match self.charge_budget(ContractCostType::HostMemAlloc, Some(1)) {
            Err(e) => Err(e),
            Ok(()) => {
                let kind = obj.kind();
                self.push_object(obj);
                Ok(Object { kind, handle: prev_len as u32 })
            },
        }
    }

    /// The object that a handle leads to.
    pub fn visit_obj(&self, obj: Object) -> (r: Result<&HostObject, HostError>)
        ensures
            match r {
                Ok(o) => self@.object_at(obj) == Ok::<HostObjectView, HostError>(o@),
                Err(e) => self@.object_at(obj) == Err::<HostObjectView, HostError>(e),
            },
    {
        match self.object(obj.handle) {
            None => Err(HostError::new(ScErrorType::Object, ScErrorCode::MissingValue)),
            Some(o) => {
                if o.kind() != obj.kind {
                    Err(HostError::new(ScErrorType::Object, ScErrorCode::UnexpectedType))
                } else {
                    Ok(o)
                }
            },
        }
    }
}

/// A handle that was issued leads to the same object for as long as the host lives:
/// whatever is stored later, and however often, the object behind the handle is what
/// it was.
pub proof fn lemma_object_immutability<C>(pre: HostView<C>, post: HostView<C>, obj: Object)
    requires
        post.keeps_objects_of(pre),
        pre.object_at(obj) is Ok,
    ensures
        post.object_at(obj) == pre.object_at(obj),
{
}

/// Storing an object leaves every handle that was issued before as it was, and the
/// new handle leads to the object that was stored.
pub proof fn lemma_add_object_keeps_objects<C>(pre: HostView<C>, obj: HostObjectView)
    ensures
        pre.add_object(obj).0.keeps_objects_of(pre),
        pre.add_object(obj).1 matches Ok(h) ==> pre.add_object(obj).0.object_at(h) == Ok::<
            HostObjectView,
            HostError,
        >(obj),
{
}

/// Objects are kept from step to step: if `b` keeps the objects of `a` and `c` keeps
/// those of `b`, then `c` keeps those of `a`.
pub proof fn lemma_keeps_objects_transitive<C>(a: HostView<C>, b: HostView<C>, c: HostView<C>)
    requires
        b.keeps_objects_of(a),
        c.keeps_objects_of(b),
    ensures
        c.keeps_objects_of(a),
{
}

} // verus!
