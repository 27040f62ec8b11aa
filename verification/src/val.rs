//! Plain values that cross the host boundary: contract identifiers, symbols,
//! error codes, object handles and the tagged value that carries them.
use vstd::prelude::*;
use vstd::string::*;
use vstd::std_specs::cmp::PartialEqSpecImpl;
use vstd::std_specs::convert::FromSpecImpl;

verus! {

/// A 256-bit identifier (a contract id, or the digest of a piece of code).
#[derive(Clone, Copy, Debug, Eq)]
pub struct Hash256(pub [u8; 32]);

impl View for Hash256 {
    type V = Seq<u8>;

    open spec fn view(&self) -> Seq<u8> {
        self.0@
    }
}

impl PartialEq for Hash256 {
    fn eq(&self, other: &Hash256) -> (r: bool) {
        let mut i: usize = 0;
        while i < 32
            invariant
                i <= 32,
                forall|j: int| 0 <= j < i ==> self.0@[j] == other.0@[j],
            decreases 32 - i,
        {
            if self.0[i] != other.0[i] {
                return false;
            }
            i += 1;
        }
        proof {
            assert(self.0 =~= other.0);
        }
        true
    }
}

impl PartialEqSpecImpl for Hash256 {
    open spec fn obeys_eq_spec() -> bool {
        true
    }

    open spec fn eq_spec(&self, other: &Hash256) -> bool {
        *self == *other
    }
}

impl From<[u8; 32]> for Hash256 {
    fn from(bytes: [u8; 32]) -> (r: Hash256) {
        Hash256(bytes)
    }
}

impl FromSpecImpl<[u8; 32]> for Hash256 {
    open spec fn obeys_from_spec() -> bool {
        true
    }

    open spec fn from_spec(bytes: [u8; 32]) -> Hash256 {
        Hash256(bytes)
    }
}

impl Hash256 {
    /// The identifier whose bytes are the first 32 elements of `s`.
    pub open spec fn spec_from_seq(s: Seq<u8>) -> Hash256 {
        Hash256(
            [
                s[0], s[1], s[2], s[3], s[4], s[5], s[6], s[7], s[8], s[9], s[10], s[11],
                s[12], s[13], s[14], s[15], s[16], s[17], s[18], s[19], s[20], s[21], s[22],
                s[23], s[24], s[25], s[26], s[27], s[28], s[29], s[30], s[31],
            ],
        )
    }

    /// Reads an identifier out of a slice; `None` unless the slice holds exactly 32 bytes.
    pub fn from_slice(bytes: &[u8]) -> (r: Option<Hash256>)
        ensures
            bytes@.len() == 32 ==> r == Some(Hash256::spec_from_seq(bytes@)),
            bytes@.len() != 32 ==> r is None,
            r matches Some(h) ==> h@ == bytes@,
    {
        if bytes.len() != 32 {
            return None;
        }
        let mut a = [0u8; 32];
        let mut i: usize = 0;
        while i < 32
            invariant
                i <= 32,
                bytes@.len() == 32,
                forall|j: int| 0 <= j < i ==> a@[j] == bytes@[j],
            decreases 32 - i,
        {
            a[i] = bytes[i];
            i += 1;
        }
        proof {
            assert(a =~= Hash256::spec_from_seq(bytes@).0);
        }
        Some(Hash256(a))
    }

    /// The 32 bytes of the identifier, in order.
    pub fn to_vec(&self) -> (r: Vec<u8>)
        ensures
            r@ == self@,
            r@.len() == 32,
    {
        let mut v: Vec<u8> = Vec::new();
        let mut i: usize = 0;
        while i < 32
            invariant
                i <= 32,
                v@.len() == i,
                forall|j: int| 0 <= j < i ==> v@[j] == self.0@[j],
            decreases 32 - i,
        {
            v.push(self.0[i]);
            i += 1;
        }
        v
    }
}

/// Reading the bytes of an identifier and building an identifier from them again
/// gives the identifier back.
pub proof fn lemma_hash_round_trip(h: Hash256)
    ensures
        Hash256::spec_from_seq(h@) == h,
{
    assert(Hash256::spec_from_seq(h@).0 =~= h.0);
}

/// An identifier built from 32 bytes has exactly those bytes.
pub proof fn lemma_hash_from_seq(s: Seq<u8>)
    requires
        s.len() == 32,
    ensures
        Hash256::spec_from_seq(s)@ == s,
{
}

/// Broad category of a failure.
#[derive(Clone, Copy, Debug, PartialEq, Eq, Structural)]
pub enum ScErrorType {
    Contract,
    WasmVm,
    Context,
    Storage,
    Object,
    Crypto,
    Events,
    Budget,
    Value,
    Auth,
}

/// What went wrong within a category.
#[derive(Clone, Copy, Debug, PartialEq, Eq, Structural)]
pub enum ScErrorCode {
    ArithDomain,
    IndexBounds,
    InvalidInput,
    MissingValue,
    ExistingValue,
    ExceededLimit,
    InvalidAction,
    InternalError,
    UnexpectedType,
    UnexpectedSize,
}

/// A structured error code. It is an ordinary value: a contract may hand one back
/// as its result, and the host may record one in an event.
#[derive(Clone, Copy, Debug, PartialEq, Eq, Structural)]
pub struct Error {
    pub type_: ScErrorType,
    pub code: ScErrorCode,
}

impl Error {
    pub open spec fn spec_new(type_: ScErrorType, code: ScErrorCode) -> Error {
        Error { type_, code }
    }

    /// The code used when nothing more precise is known about a failure.
    pub open spec fn spec_unknown() -> Error {
        Error { type_: ScErrorType::Context, code: ScErrorCode::InternalError }
    }

    pub fn from_type_and_code(type_: ScErrorType, code: ScErrorCode) -> (r: Error)
        ensures
            r == Error::spec_new(type_, code),
    {
        Error { type_, code }
    }

    pub fn unknown() -> (r: Error)
        ensures
            r == Error::spec_unknown(),
    {
        Error { type_: ScErrorType::Context, code: ScErrorCode::InternalError }
    }
}

/// The failure of a host operation.
#[derive(Clone, Copy, Debug, PartialEq, Eq, Structural)]
pub struct HostError {
    pub error: Error,
}

impl HostError {
    pub open spec fn spec_new(type_: ScErrorType, code: ScErrorCode) -> HostError {
        HostError { error: Error { type_, code } }
    }

    /// The failure of the given category and code.
    pub fn new(type_: ScErrorType, code: ScErrorCode) -> (r: HostError)
        ensures
            r == HostError::spec_new(type_, code),
    {
        HostError { error: Error { type_, code } }
    }
}

/// Whether `c` may occur in a symbol: an ASCII letter, a digit or an underscore.
pub open spec fn is_symbol_char(c: u8) -> bool {
    c == 95 || (48 <= c && c <= 57) || (65 <= c && c <= 90) || (97 <= c && c <= 122)
}

/// Whether `s` can be held by a [`Symbol`].
pub open spec fn is_symbol_name(s: Seq<u8>) -> bool {
    &&& s.len() <= 32
    &&& forall|i: int| 0 <= i < s.len() ==> is_symbol_char(#[trigger] s[i])
}

pub open spec fn symbol_char_at(s: Seq<u8>, i: int) -> u8 {
    if 0 <= i < s.len() {
        s[i]
    } else {
        0
    }
}

/// A short name (of a function, or a well-known topic), held inline so that it can be
/// copied freely. Unused trailing positions are zero.
#[derive(Clone, Copy, Debug, PartialEq, Eq)]
pub struct Symbol {
    pub len: u8,
    pub chars: [u8; 32],
}

impl View for Symbol {
    type V = Seq<u8>;

    /// The characters of the name.
    open spec fn view(&self) -> Seq<u8> {
        if self.len <= 32 {
            self.chars@.subrange(0, self.len as int)
        } else {
            self.chars@
        }
    }
}

impl Symbol {
    /// The symbol that holds the name `s` (of at most 32 characters).
    pub open spec fn spec_from_bytes(s: Seq<u8>) -> Symbol {
        Symbol { len: s.len() as u8, chars: [
            symbol_char_at(s, 0), symbol_char_at(s, 1), symbol_char_at(s, 2), symbol_char_at(s,
            3), symbol_char_at(s, 4), symbol_char_at(s, 5), symbol_char_at(s, 6),
            symbol_char_at(s, 7), symbol_char_at(s, 8), symbol_char_at(s, 9), symbol_char_at(s,
            10), symbol_char_at(s, 11), symbol_char_at(s, 12), symbol_char_at(s, 13),
            symbol_char_at(s, 14), symbol_char_at(s, 15), symbol_char_at(s, 16),
            symbol_char_at(s, 17), symbol_char_at(s, 18), symbol_char_at(s, 19),
            symbol_char_at(s, 20), symbol_char_at(s, 21), symbol_char_at(s, 22),
            symbol_char_at(s, 23), symbol_char_at(s, 24), symbol_char_at(s, 25),
            symbol_char_at(s, 26), symbol_char_at(s, 27), symbol_char_at(s, 28),
            symbol_char_at(s, 29), symbol_char_at(s, 30), symbol_char_at(s, 31),
        ] }
    }

    /// Whether the name begins with two underscores.
    pub open spec fn spec_is_reserved(self) -> bool {
        self@.len() >= 2 && self@[0] == 95 && self@[1] == 95
    }

    /// Builds a symbol from its characters. Fails with `Value`/`InvalidInput` when the
    /// name is longer than 32 characters or holds a character other than a letter, a
    /// digit or an underscore.
    pub fn try_from_bytes(bytes: &[u8]) -> (r: Result<Symbol, Error>)
        ensures
            is_symbol_name(bytes@) ==> r == Ok::<Symbol, Error>(Symbol::spec_from_bytes(bytes@)),
            !is_symbol_name(bytes@) ==> r == Err::<Symbol, Error>(
                Error::spec_new(ScErrorType::Value, ScErrorCode::InvalidInput),
            ),
    {
        if bytes.len() > 32 {
            return Err(Error { type_: ScErrorType::Value, code: ScErrorCode::InvalidInput });
        }
        let n = bytes.len();
        let mut a = [0u8; 32];
        let mut i: usize = 0;
        while i < n
            invariant
                i <= n,
                n == bytes@.len(),
                n <= 32,
                forall|j: int| 0 <= j < i ==> a@[j] == bytes@[j] && is_symbol_char(bytes@[j]),
                forall|j: int| i <= j < 32 ==> a@[j] == 0,
            decreases n - i,
        {
            let c = bytes[i];
            let ok = c == 95 || (48 <= c && c <= 57) || (65 <= c && c <= 90) || (97 <= c && c
                <= 122);
            if !ok {
                return Err(Error { type_: ScErrorType::Value, code: ScErrorCode::InvalidInput });
            }
            a[i] = c;
            i += 1;
        }
        proof {
            assert(a =~= Symbol::spec_from_bytes(bytes@).chars);
        }
        Ok(Symbol { len: n as u8, chars: a })
    }

    /// Builds a symbol from a string; see [`Symbol::try_from_bytes`].
    pub fn try_from_str(s: &str) -> (r: Result<Symbol, Error>)
        ensures
            is_symbol_name(s.spec_bytes()) ==> r == Ok::<Symbol, Error>(
                Symbol::spec_from_bytes(s.spec_bytes()),
            ),
            !is_symbol_name(s.spec_bytes()) ==> r == Err::<Symbol, Error>(
                Error::spec_new(ScErrorType::Value, ScErrorCode::InvalidInput),
            ),
    {
        Symbol::try_from_bytes(s.as_bytes())
    }

    /// The characters of the name.
    pub fn to_bytes(&self) -> (r: Vec<u8>)
        ensures
            r@ == self@,
    {
        let n: usize = if self.len <= 32 {
            self.len as usize
        } else {
            32
        };
        let mut v: Vec<u8> = Vec::new();
        let mut i: usize = 0;
        while i < n
            invariant
                i <= n,
                n <= 32,
                v@.len() == i,
                forall|j: int| 0 <= j < i ==> v@[j] == self.chars@[j],
            decreases n - i,
        {
            v.push(self.chars[i]);
            i += 1;
        }
        v
    }

    /// Whether the name begins with two underscores, the prefix of the functions that
    /// only the host itself may call.
    pub fn is_reserved(&self) -> (r: bool)
        ensures
            r == self.spec_is_reserved(),
    {
        (self.len >= 2) && self.chars[0] == 95 && self.chars[1] == 95
    }
}

/// A symbol built from a name holds exactly that name.
pub proof fn lemma_symbol_from_bytes(s: Seq<u8>)
    requires
        s.len() <= 32,
    ensures
        Symbol::spec_from_bytes(s)@ == s,
{
}

/// The kinds of object that the object store holds.
#[derive(Clone, Copy, Debug, PartialEq, Eq, Structural)]
pub enum ObjectKind {
    Vec,
    OrdMap,
    U64,
    I64,
    TimePoint,
    Duration,
    U128,
    I128,
    U256,
    I256,
    Bytes,
    String,
    Symbol,
    ContractExecutable,
    Address,
    NonceKey,
}

/// A handle to an object of the object store, together with the kind of object that
/// it was issued for.
#[derive(Clone, Copy, Debug, PartialEq, Eq, Structural)]
pub struct Object {
    pub kind: ObjectKind,
    pub handle: u32,
}

/// A handle issued for a byte string.
#[derive(Clone, Copy, Debug, PartialEq, Eq, Structural)]
pub struct BytesObject {
    pub handle: u32,
}

/// A handle issued for a sequence of values.
#[derive(Clone, Copy, Debug, PartialEq, Eq, Structural)]
pub struct VecObject {
    pub handle: u32,
}

impl BytesObject {
    pub open spec fn spec_to_object(self) -> Object {
        Object { kind: ObjectKind::Bytes, handle: self.handle }
    }

    pub fn to_object(&self) -> (r: Object)
        ensures
            r == self.spec_to_object(),
    {
        Object { kind: ObjectKind::Bytes, handle: self.handle }
    }

    pub fn to_raw(&self) -> (r: RawVal)
        ensures
            r == RawVal::Object(self.spec_to_object()),
    {
        RawVal::Object(self.to_object())
    }
}

impl VecObject {
    pub open spec fn spec_to_object(self) -> Object {
        Object { kind: ObjectKind::Vec, handle: self.handle }
    }

    pub fn to_object(&self) -> (r: Object)
        ensures
            r == self.spec_to_object(),
    {
        Object { kind: ObjectKind::Vec, handle: self.handle }
    }

    pub fn to_raw(&self) -> (r: RawVal)
        ensures
            r == RawVal::Object(self.spec_to_object()),
    {
        RawVal::Object(self.to_object())
    }
}

/// A value as contracts see it: either a small value held inline or a handle to an
/// object of the object store.
#[derive(Clone, Copy, Debug, PartialEq, Eq)]
pub enum RawVal {
    Void,
    /// The key under which the executable of a contract is kept in its own storage.
    LedgerKeyContractExecutable,
    Bool(bool),
    U32(u32),
    I32(i32),
    Error(Error),
    Symbol(Symbol),
    Object(Object),
}

impl RawVal {
    /// The error code that the value carries, if it carries one.
    pub open spec fn spec_as_error(self) -> Option<Error> {
        match self {
            RawVal::Error(e) => Some(e),
            _ => None,
        }
    }

    pub open spec fn spec_as_u32(self) -> Option<u32> {
        match self {
            RawVal::U32(u) => Some(u),
            _ => None,
        }
    }

    pub open spec fn spec_as_object(self) -> Option<Object> {
        match self {
            RawVal::Object(o) => Some(o),
            _ => None,
        }
    }

    pub fn as_error(&self) -> (r: Option<Error>)
        ensures
            r == self.spec_as_error(),
    {
        match self {
            RawVal::Error(e) => Some(*e),
            _ => None,
        }
    }

    pub fn as_u32(&self) -> (r: Option<u32>)
        ensures
            r == self.spec_as_u32(),
    {
        match self {
            RawVal::U32(u) => Some(*u),
            _ => None,
        }
    }

    pub fn as_object(&self) -> (r: Option<Object>)
        ensures
            r == self.spec_as_object(),
    {
        match self {
            RawVal::Object(o) => Some(*o),
            _ => None,
        }
    }
}

impl Error {
    pub fn to_raw(&self) -> (r: RawVal)
        ensures
            r == RawVal::Error(*self),
    {
        RawVal::Error(*self)
    }
}

impl Symbol {
    pub fn to_raw(&self) -> (r: RawVal)
        ensures
            r == RawVal::Symbol(*self),
    {
        RawVal::Symbol(*self)
    }
}

} // verus!
