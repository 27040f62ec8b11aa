//! The values that leave and enter the host in self-contained form, and the keys and
//! entries of the ledger. Each type that owns heap data has a mathematical view.
use crate::val::{Error, Hash256, Symbol};
use vstd::prelude::*;
use vstd::std_specs::convert::FromSpecImpl;

verus! {

/// An unsigned 256-bit integer, as two halves.
#[derive(Clone, Copy, Debug, PartialEq, Eq, Structural)]
pub struct U256 {
    pub hi: u128,
    pub lo: u128,
}

/// A signed 256-bit integer, as two halves.
#[derive(Clone, Copy, Debug, PartialEq, Eq, Structural)]
pub struct I256 {
    pub hi: i128,
    pub lo: u128,
}

/// 256 bits of key material.
#[derive(Clone, Copy, Debug, PartialEq, Eq)]
pub struct Uint256(pub [u8; 32]);

impl View for Uint256 {
    type V = Seq<u8>;

    open spec fn view(&self) -> Seq<u8> {
        self.0@
    }
}

impl From<[u8; 32]> for Uint256 {
    fn from(bytes: [u8; 32]) -> (r: Uint256) {
        Uint256(bytes)
    }
}

impl FromSpecImpl<[u8; 32]> for Uint256 {
    open spec fn obeys_from_spec() -> bool {
        true
    }

    open spec fn from_spec(bytes: [u8; 32]) -> Uint256 {
        Uint256(bytes)
    }
}

/// The public key of an account.
#[derive(Clone, Copy, Debug, PartialEq, Eq)]
pub enum AccountPublicKey {
    PublicKeyTypeEd25519(Uint256),
}

/// The identity of an account.
#[derive(Clone, Copy, Debug, PartialEq, Eq)]
pub struct AccountId(pub AccountPublicKey);

/// Who acts: an account or a contract.
#[derive(Clone, Copy, Debug, PartialEq, Eq)]
pub enum ScAddress {
    Account(AccountId),
    Contract(Hash256),
}

/// The key under which the nonce of an address is kept.
#[derive(Clone, Copy, Debug, PartialEq, Eq)]
pub struct ScNonceKey {
    pub nonce_address: ScAddress,
}

/// What runs when a contract is called: code, by its digest, or the built-in token.
#[derive(Clone, Copy, Debug, PartialEq, Eq)]
pub enum ScContractExecutable {
    WasmRef(Hash256),
    Token,
}

/// The kind of an event.
#[derive(Clone, Copy, Debug, PartialEq, Eq, Structural)]
pub enum ContractEventType {
    System,
    Contract,
    Diagnostic,
}

/// The operations that can be invoked on the host from outside.
#[derive(Clone, Copy, Debug, PartialEq, Eq, Structural)]
pub enum HostFunctionType {
    InvokeContract,
    CreateContract,
    UploadContractWasm,
}

/// A self-contained value.
#[derive(Debug, PartialEq, Eq)]
pub enum ScVal {
    Void,
    Bool(bool),
    U32(u32),
    I32(i32),
    U64(u64),
    I64(i64),
    TimePoint(u64),
    Duration(u64),
    U128(u128),
    I128(i128),
    U256(U256),
    I256(I256),
    Bytes(Vec<u8>),
    String(Vec<u8>),
    Symbol(Symbol),
    Vec(Vec<ScVal>),
    OrdMap(Vec<(ScVal, ScVal)>),
    Error(Error),
    ContractExecutable(ScContractExecutable),
    Address(ScAddress),
    LedgerKeyContractExecutable,
    LedgerKeyNonce(ScNonceKey),
}

/// The mathematical content of a [`ScVal`].
pub ghost enum ScValView {
    Void,
    Bool(bool),
    U32(u32),
    I32(i32),
    U64(u64),
    I64(i64),
    TimePoint(u64),
    Duration(u64),
    U128(u128),
    I128(i128),
    U256(U256),
    I256(I256),
    Bytes(Seq<u8>),
    String(Seq<u8>),
    Symbol(Symbol),
    Vec(Seq<ScValView>),
    OrdMap(Seq<(ScValView, ScValView)>),
    Error(Error),
    ContractExecutable(ScContractExecutable),
    Address(ScAddress),
    LedgerKeyContractExecutable,
    LedgerKeyNonce(ScNonceKey),
}

/// The mathematical content of a value.
pub open spec fn scval_view(v: ScVal) -> ScValView
    decreases v,
{
    match v {
            ScVal::Void => ScValView::Void,
            ScVal::Bool(b) => ScValView::Bool(b),
            ScVal::U32(x) => ScValView::U32(x),
            ScVal::I32(x) => ScValView::I32(x),
            ScVal::U64(x) => ScValView::U64(x),
            ScVal::I64(x) => ScValView::I64(x),
            ScVal::TimePoint(x) => ScValView::TimePoint(x),
            ScVal::Duration(x) => ScValView::Duration(x),
            ScVal::U128(x) => ScValView::U128(x),
            ScVal::I128(x) => ScValView::I128(x),
            ScVal::U256(x) => ScValView::U256(x),
            ScVal::I256(x) => ScValView::I256(x),
            ScVal::Bytes(b) => ScValView::Bytes(b@),
            ScVal::String(b) => ScValView::String(b@),
            ScVal::Symbol(s) => ScValView::Symbol(s),
            ScVal::Vec(items) => ScValView::Vec(
                Seq::new(
                    items@.len(),
                    |i: int|
                        if 0 <= i < items@.len() {
                            scval_view(items@[i])
                        } else {
                            ScValView::Void
                        },
                ),
            ),
            ScVal::OrdMap(m) => ScValView::OrdMap(
                Seq::new(
                    m@.len(),
                    |i: int|
                        if 0 <= i < m@.len() {
                            (scval_view(m@[i].0), scval_view(m@[i].1))
                        } else {
                            (ScValView::Void, ScValView::Void)
                        },
                ),
            ),
            ScVal::Error(e) => ScValView::Error(e),
            ScVal::ContractExecutable(e) => ScValView::ContractExecutable(e),
            ScVal::Address(a) => ScValView::Address(a),
            ScVal::LedgerKeyContractExecutable => ScValView::LedgerKeyContractExecutable,
            ScVal::LedgerKeyNonce(k) => ScValView::LedgerKeyNonce(k),
        }
}

impl View for ScVal {
    type V = ScValView;

    open spec fn view(&self) -> ScValView {
        scval_view(*self)
    }
}

/// The views of a run of values, in order.
pub open spec fn scvals_view(v: Seq<ScVal>) -> Seq<ScValView> {
    Seq::new(v.len(), |i: int| v[i]@)
}

/// Whether two byte strings hold the same bytes.
pub fn bytes_eq(a: &[u8], b: &[u8]) -> (r: bool)
    ensures
        r == (a@ == b@),
{
    if a.len() != b.len() {
        return false;
    }
    let mut i: usize = 0;
    while i < a.len()
        invariant
            i <= a.len(),
            a.len() == b.len(),
            forall|j: int| 0 <= j < i ==> a@[j] == b@[j],
        decreases a.len() - i,
    {
        if a[i] != b[i] {
            return false;
        }
        i += 1;
    }
    assert(a@ =~= b@);
    true
}

/// A copy of a byte string.
pub fn bytes_clone(a: &[u8]) -> (r: Vec<u8>)
    ensures
        r@ == a@,
{
    let mut v: Vec<u8> = Vec::new();
    let mut i: usize = 0;
    while i < a.len()
        invariant
            i <= a.len(),
            v@.len() == i,
            forall|j: int| 0 <= j < i ==> v@[j] == a@[j],
        decreases a.len() - i,
    {
        v.push(a[i]);
        i += 1;
    }
    v
}

/// Whether two arrays of 32 bytes hold the same bytes.
pub fn bytes32_eq(a: &[u8; 32], b: &[u8; 32]) -> (r: bool)
    ensures
        r == (*a == *b),
{
    let mut i: usize = 0;
    while i < 32
        invariant
            i <= 32,
            forall|j: int| 0 <= j < i ==> a@[j] == b@[j],
        decreases 32 - i,
    {
        if a[i] != b[i] {
            return false;
        }
        i += 1;
    }
    assert(*a =~= *b);
    true
}

impl Symbol {
    /// Whether two symbols are the same value.
    pub fn same(&self, other: &Symbol) -> (r: bool)
        ensures
            r == (*self == *other),
    {
        self.len == other.len && bytes32_eq(&self.chars, &other.chars)
    }
}

impl ScAddress {
    /// Whether two addresses are the same value.
    pub fn same(&self, other: &ScAddress) -> (r: bool)
        ensures
            r == (*self == *other),
    {
        match self {
            ScAddress::Account(AccountId(AccountPublicKey::PublicKeyTypeEd25519(x))) => match other {
                ScAddress::Account(AccountId(AccountPublicKey::PublicKeyTypeEd25519(y))) => bytes32_eq(
                    &x.0,
                    &y.0,
                ),
                ScAddress::Contract(_) => false,
            },
            ScAddress::Contract(x) => match other {
                ScAddress::Account(_) => false,
                ScAddress::Contract(y) => *x == *y,
            },
        }
    }
}

impl ScContractExecutable {
    /// Whether two descriptors are the same value.
    pub fn same(&self, other: &ScContractExecutable) -> (r: bool)
        ensures
            r == (*self == *other),
    {
        match self {
            ScContractExecutable::WasmRef(x) => match other {
                ScContractExecutable::WasmRef(y) => *x == *y,
                ScContractExecutable::Token => false,
            },
            ScContractExecutable::Token => match other {
                ScContractExecutable::WasmRef(_) => false,
                ScContractExecutable::Token => true,
            },
        }
    }
}

/// The view of a sequence value is made of the views of its items.
pub proof fn lemma_view_vec(v: ScVal)
    requires
        v is Vec,
    ensures
        v@ is Vec,
        v@->Vec_0.len() == v->Vec_0@.len(),
        forall|j: int| 0 <= j < v->Vec_0@.len() ==> v@->Vec_0[j] == (#[trigger] v->Vec_0@[j])@,
{
}

/// The view of a mapping value is made of the views of its keys and values.
pub proof fn lemma_view_ord_map(v: ScVal)
    requires
        v is OrdMap,
    ensures
        v@ is OrdMap,
        v@->OrdMap_0.len() == v->OrdMap_0@.len(),
        forall|j: int|
            0 <= j < v->OrdMap_0@.len() ==> v@->OrdMap_0[j] == (
                (#[trigger] v->OrdMap_0@[j]).0@,
                v->OrdMap_0@[j].1@,
            ),
{
}

impl ScVal {
    /// Whether two values have the same content.
    pub fn same(&self, other: &ScVal) -> (r: bool)
        ensures
            r == (self@ == other@),
        decreases self,
    {
        match self {
            ScVal::Void => matches!(other, ScVal::Void),
            ScVal::Bool(x) => match other {
                ScVal::Bool(y) => *x == *y,
                _ => false,
            },
            ScVal::U32(x) => match other {
                ScVal::U32(y) => *x == *y,
                _ => false,
            },
            ScVal::I32(x) => match other {
                ScVal::I32(y) => *x == *y,
                _ => false,
            },
            ScVal::U64(x) => match other {
                ScVal::U64(y) => *x == *y,
                _ => false,
            },
            ScVal::I64(x) => match other {
                ScVal::I64(y) => *x == *y,
                _ => false,
            },
            ScVal::TimePoint(x) => match other {
                ScVal::TimePoint(y) => *x == *y,
                _ => false,
            },
            ScVal::Duration(x) => match other {
                ScVal::Duration(y) => *x == *y,
                _ => false,
            },
            ScVal::U128(x) => match other {
                ScVal::U128(y) => *x == *y,
                _ => false,
            },
            ScVal::I128(x) => match other {
                ScVal::I128(y) => *x == *y,
                _ => false,
            },
            ScVal::U256(x) => match other {
                ScVal::U256(y) => x.hi == y.hi && x.lo == y.lo,
                _ => false,
            },
            ScVal::I256(x) => match other {
                ScVal::I256(y) => x.hi == y.hi && x.lo == y.lo,
                _ => false,
            },
            ScVal::Bytes(x) => match other {
                ScVal::Bytes(y) => bytes_eq(x.as_slice(), y.as_slice()),
                _ => false,
            },
            ScVal::String(x) => match other {
                ScVal::String(y) => bytes_eq(x.as_slice(), y.as_slice()),
                _ => false,
            },
            ScVal::Symbol(x) => match other {
                ScVal::Symbol(y) => x.same(y),
                _ => false,
            },
            ScVal::Vec(x) => match other {
                ScVal::Vec(y) => {
                    proof {
                        lemma_view_vec(*self);
                    }
                    if x.len() != y.len() {
                        return false;
                    }
                    let mut i: usize = 0;
                    while i < x.len()
                        invariant
                            i <= x.len(),
                            x.len() == y.len(),
                            *self == ScVal::Vec(*x),
                            *other == ScVal::Vec(*y),
                            forall|j: int| 0 <= j < i ==> x@[j]@ == y@[j]@,
                        decreases x.len() - i,
                    {
                        if !x[i].same(&y[i]) {
                            proof {
                                assert(self@->Vec_0[i as int] == x@[i as int]@);
                            }
                            return false;
                        }
                        i += 1;
                    }
                    assert(self@->Vec_0 =~= other@->Vec_0);
                    true
                },
                _ => false,
            },
            ScVal::OrdMap(x) => match other {
                ScVal::OrdMap(y) => {
                    proof {
                        lemma_view_ord_map(*self);
                    }
                    if x.len() != y.len() {
                        return false;
                    }
                    let mut i: usize = 0;
                    while i < x.len()
                        invariant
                            i <= x.len(),
                            x.len() == y.len(),
                            *self == ScVal::OrdMap(*x),
                            *other == ScVal::OrdMap(*y),
                            forall|j: int|
                                0 <= j < i ==> x@[j].0@ == y@[j].0@ && x@[j].1@ == y@[j].1@,
                        decreases x.len() - i,
                    {
                        let same_key = x[i].0.same(&y[i].0);
                        let same_val = x[i].1.same(&y[i].1);
                        if !(same_key && same_val) {
                            proof {
                                assert(self@->OrdMap_0[i as int] == (x@[i as int].0@, x@[i as int].1@));
                            }
                            return false;
                        }
                        i += 1;
                    }
                    assert(self@->OrdMap_0 =~= other@->OrdMap_0);
                    true
                },
                _ => false,
            },
            ScVal::Error(x) => match other {
                ScVal::Error(y) => *x == *y,
                _ => false,
            },
            ScVal::ContractExecutable(x) => match other {
                ScVal::ContractExecutable(y) => x.same(y),
                _ => false,
            },
            ScVal::Address(x) => match other {
                ScVal::Address(y) => x.same(y),
                _ => false,
            },
            ScVal::LedgerKeyContractExecutable => matches!(other, ScVal::LedgerKeyContractExecutable),
            ScVal::LedgerKeyNonce(x) => match other {
                ScVal::LedgerKeyNonce(y) => x.nonce_address.same(&y.nonce_address),
                _ => false,
            },
        }
    }
}

/// The most values that a [`ScVec`] can hold.
pub const SCVEC_LIMIT: usize = 256000;

/// A bounded run of self-contained values.
#[derive(Debug, PartialEq, Eq)]
pub struct ScVec(pub Vec<ScVal>);

impl View for ScVec {
    type V = Seq<ScValView>;

    open spec fn view(&self) -> Seq<ScValView> {
        scvals_view(self.0@)
    }
}

/// The key of a ledger entry.
#[derive(Debug, PartialEq, Eq)]
pub enum LedgerKey {
    ContractData { contract_id: Hash256, key: ScVal },
    ContractCode { hash: Hash256 },
}

/// The mathematical content of a [`LedgerKey`].
pub ghost enum LedgerKeyView {
    ContractData { contract_id: Hash256, key: ScValView },
    ContractCode { hash: Hash256 },
}

impl View for LedgerKey {
    type V = LedgerKeyView;

    open spec fn view(&self) -> LedgerKeyView {
        match self {
            LedgerKey::ContractData { contract_id, key } => LedgerKeyView::ContractData {
                contract_id: *contract_id,
                key: key@,
            },
            LedgerKey::ContractCode { hash } => LedgerKeyView::ContractCode { hash: *hash },
        }
    }
}

impl LedgerKey {
    /// Whether two keys have the same content.
    pub fn same(&self, other: &LedgerKey) -> (r: bool)
        ensures
            r == (self@ == other@),
    {
        match self {
            LedgerKey::ContractData { contract_id: c1, key: k1 } => match other {
                LedgerKey::ContractData { contract_id: c2, key: k2 } => *c1 == *c2 && k1.same(k2),
                LedgerKey::ContractCode { .. } => false,
            },
            LedgerKey::ContractCode { hash: h1 } => match other {
                LedgerKey::ContractData { .. } => false,
                LedgerKey::ContractCode { hash: h2 } => *h1 == *h2,
            },
        }
    }
}

/// What the ledger keeps under a key.
#[derive(Debug, PartialEq, Eq)]
pub enum LedgerEntry {
    ContractData { contract_id: Hash256, key: ScVal, val: ScVal },
    ContractCode { hash: Hash256, code: Vec<u8> },
}

/// The mathematical content of a [`LedgerEntry`].
pub ghost enum LedgerEntryView {
    ContractData { contract_id: Hash256, key: ScValView, val: ScValView },
    ContractCode { hash: Hash256, code: Seq<u8> },
}

impl View for LedgerEntry {
    type V = LedgerEntryView;

    open spec fn view(&self) -> LedgerEntryView {
        match self {
            LedgerEntry::ContractData { contract_id, key, val } => LedgerEntryView::ContractData {
                contract_id: *contract_id,
                key: key@,
                val: val@,
            },
            LedgerEntry::ContractCode { hash, code } => LedgerEntryView::ContractCode {
                hash: *hash,
                code: code@,
            },
        }
    }
}

impl LedgerEntryView {
    /// The executable that the entry holds, if it is the entry of the executable of a
    /// contract.
    pub open spec fn executable(self) -> Option<ScContractExecutable> {
        match self {
            LedgerEntryView::ContractData { val: ScValView::ContractExecutable(e), .. } => Some(e),
            _ => None,
        }
    }

    /// The code that the entry holds, if it is an entry of code.
    pub open spec fn code(self) -> Option<Seq<u8>> {
        match self {
            LedgerEntryView::ContractCode { code, .. } => Some(code),
            _ => None,
        }
    }
}

/// What it takes to create a contract: the salt its identifier is derived from, and
/// what will run when it is called.
#[derive(Debug, PartialEq, Eq)]
pub struct CreateContractArgs {
    pub salt: Vec<u8>,
    pub executable: ScContractExecutable,
}

/// What it takes to upload code.
#[derive(Debug, PartialEq, Eq)]
pub struct UploadContractWasmArgs {
    pub code: Vec<u8>,
}

/// An operation invoked on the host from outside, with its arguments.
#[derive(Debug, PartialEq, Eq)]
pub enum HostFunctionArgs {
    InvokeContract(Vec<ScVal>),
    CreateContract(CreateContractArgs),
    UploadContractWasm(UploadContractWasmArgs),
}

impl HostFunctionArgs {
    pub open spec fn spec_discriminant(self) -> HostFunctionType {
        match self {
            HostFunctionArgs::InvokeContract(_) => HostFunctionType::InvokeContract,
            HostFunctionArgs::CreateContract(_) => HostFunctionType::CreateContract,
            HostFunctionArgs::UploadContractWasm(_) => HostFunctionType::UploadContractWasm,
        }
    }

    /// Which operation this is.
    pub fn discriminant(&self) -> (r: HostFunctionType)
        ensures
            r == self.spec_discriminant(),
    {
        match self {
            HostFunctionArgs::InvokeContract(_) => HostFunctionType::InvokeContract,
            HostFunctionArgs::CreateContract(_) => HostFunctionType::CreateContract,
            HostFunctionArgs::UploadContractWasm(_) => HostFunctionType::UploadContractWasm,
        }
    }
}

/// An authorisation that comes with an operation: `contract_id` may be called at
/// `function` on behalf of the signer.
#[derive(Clone, Copy, Debug, PartialEq, Eq)]
pub struct ContractAuth {
    pub contract_id: Hash256,
    pub function: Symbol,
}

/// An operation together with the authorisations given for it.
#[derive(Debug, PartialEq, Eq)]
pub struct HostFunction {
    pub args: HostFunctionArgs,
    pub auth: Vec<ContractAuth>,
}

} // verus!

