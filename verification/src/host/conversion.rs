//! Conversions between the values of the host and the plain data that its operations
//! work on: integers, fixed-length byte strings, keys, digests.
use crate::budget::ContractCostType;
use crate::crypto::{
    array_from_slice, ed25519_point_decompresses, public_key_from_bytes, sha256, sha256_digest,
    signature_from_array, signature_scalar_is_reduced,
};
use crate::host::{Host, HostView};
use crate::host_object::{
    unexpected_object_type, unknown_reference, HostObject, HostObjectView,
};
use crate::val::{
    is_symbol_name, BytesObject, Error, Hash256, HostError, Object, RawVal, ScErrorCode, ScErrorType,
    Symbol,
};
use crate::xdr::{
    bytes_clone, scvals_view, AccountId, AccountPublicKey, LedgerKey, LedgerKeyView, ScVal,
    ScValView, ScVec, Uint256, SCVEC_LIMIT,
};
use vstd::prelude::*;
use vstd::string::*;
use vstd::utf8::encode_utf8;

verus! {

/// The message for the input `name` when its value is not a `U32`.
pub open spec fn need_u32_message(name: Seq<char>) -> Seq<u8> {
    encode_utf8("unexpected RawVal for input '"@ + name + "', need U32"@)
}

/// The message for the input `name` when its value is a `U32` that is not a byte.
pub open spec fn need_u8_message(name: Seq<char>) -> Seq<u8> {
    encode_utf8("unexpected RawVal for input '"@ + name + "', need u32 no greater than 255"@)
}

/// The message for the input `name` when it is a byte string of the wrong length.
pub open spec fn wrong_length_message(name: Seq<char>) -> Seq<u8> {
    encode_utf8("byte string has wrong length for input '"@ + name + "'"@)
}

/// The text made of `prefix`, `name` and `suffix`, in this order.
pub fn input_message(prefix: &str, name: &str, suffix: &str) -> (r: String)
    ensures
        r@ == prefix@ + name@ + suffix@,
{
    let mut msg = String::from_str(prefix);
    msg.append(name);
    msg.append(suffix);
    msg
}

/// The message for 32 bytes that are wanted and not found.
pub open spec fn bad_u256_length_message() -> Seq<u8> {
    "bad u256 length".spec_bytes()
}

/// The message for bytes that are not a public key.
pub open spec fn invalid_public_key_message() -> Seq<u8> {
    "invalid public key".spec_bytes()
}

/// The message for bytes that are not a signature.
pub open spec fn invalid_signature_message() -> Seq<u8> {
    "invalid signature".spec_bytes()
}

/// The message for a digest of the wrong size.
pub open spec fn incorrect_hash_size_message() -> Seq<u8> {
    "incorrect hash size".spec_bytes()
}

/// What a binary search found, as one number: the position in the low 32 bits, and
/// bit 32 set if the element was found there.
pub open spec fn spec_u64_from_binary_search_result(res: Result<usize, usize>) -> int {
    match res {
        Ok(u) => u + 0x1_0000_0000,
        Err(u) => u as int,
    }
}

impl<C> HostView<C> {
    /// The bytes of the byte string that `obj` leads to.
    pub open spec fn bytes_at(self, obj: Object) -> Result<Seq<u8>, HostError> {
        match self.object_at(obj) {
            Err(e) => Err(e),
            Ok(HostObjectView::Bytes(b)) => Ok(b),
            Ok(_) => Err(unexpected_object_type()),
        }
    }

    /// The host after an attempt to take a value of fixed length `n` out of `bytes`,
    /// and whether it went well. A byte string of another length is refused, which is
    /// reported to the trace. Copying the bytes is charged.
    pub open spec fn fixed_length_bytes(self, name: Seq<char>, bytes: Seq<u8>, n: nat) -> (
        HostView<C>,
        Result<(), HostError>,
    ) {
        if bytes.len() != n {
            (
                self.error(
                    Error::spec_new(ScErrorType::Object, ScErrorCode::UnexpectedSize),
                    wrong_length_message(name),
                    Seq::empty(),
                ),
                Err(HostError::spec_new(ScErrorType::Object, ScErrorCode::UnexpectedSize)),
            )
        } else {
            self.charge(ContractCostType::BytesClone, Some(n as u64))
        }
    }

    /// The host after an attempt to take a value of fixed length `n` out of the byte
    /// string that `obj` leads to, the bytes, and whether it went well.
    pub open spec fn fixed_length_bytes_of(self, name: Seq<char>, obj: Object, n: nat) -> (
        HostView<C>,
        Result<Seq<u8>, HostError>,
    ) {
        match self.bytes_at(obj) {
            Err(e) => (self, Err(e)),
            Ok(bytes) => match self.fixed_length_bytes(name, bytes, n).1 {
                Err(e) => (self.fixed_length_bytes(name, bytes, n).0, Err(e)),
                Ok(_) => (self.fixed_length_bytes(name, bytes, n).0, Ok(bytes)),
            },
        }
    }

    /// The host after an attempt to decode `bytes` as an Ed25519 public key, and
    /// whether it went well. The attempt is charged by the number of bytes; bytes that
    /// are no key are refused, which is reported to the trace.
    pub open spec fn ed25519_pub_key(self, bytes: Seq<u8>) -> (HostView<C>, Result<(), HostError>) {
        let (charged, r) = self.charge(
            ContractCostType::ComputeEd25519PubKey,
            Some(bytes.len() as u64),
        );
        match r {
            Err(e) => (charged, Err(e)),
            Ok(_) => if bytes.len() == 32 && ed25519_point_decompresses(bytes) {
                (charged, Ok(()))
            } else {
                (
                    charged.error(
                        Error::spec_new(ScErrorType::Crypto, ScErrorCode::InvalidInput),
                        invalid_public_key_message(),
                        Seq::empty(),
                    ),
                    Err(HostError::spec_new(ScErrorType::Crypto, ScErrorCode::InvalidInput)),
                )
            },
        }
    }

    /// The host after an attempt to decode `bytes` as an Ed25519 signature, and whether
    /// it went well. Bytes of the wrong length are refused; copying the bytes is
    /// charged; a signature whose scalar is not reduced is refused. Both refusals are
    /// reported to the trace.
    pub open spec fn ed25519_signature(self, name: Seq<char>, bytes: Seq<u8>) -> (
        HostView<C>,
        Result<(), HostError>,
    ) {
        let (h, r) = self.fixed_length_bytes(name, bytes, 64);
        match r {
            Err(e) => (h, Err(e)),
            Ok(_) => if signature_scalar_is_reduced(bytes) {
                (h, Ok(()))
            } else {
                (
                    h.error(
                        Error::spec_new(ScErrorType::Crypto, ScErrorCode::InvalidInput),
                        invalid_signature_message(),
                        Seq::empty(),
                    ),
                    Err(HostError::spec_new(ScErrorType::Crypto, ScErrorCode::InvalidInput)),
                )
            },
        }
    }

    /// The host after the bytes of `obj` were hashed, and the digest. Hashing is
    /// charged by the number of bytes.
    pub open spec fn sha256_of(self, obj: Object) -> (HostView<C>, Result<Seq<u8>, HostError>) {
        match self.bytes_at(obj) {
            Err(e) => (self, Err(e)),
            Ok(bytes) => {
                let (charged, r) = self.charge(
                    ContractCostType::ComputeSha256Hash,
                    Some(bytes.len() as u64),
                );
                match r {
                    Err(e) => (charged, Err(e)),
                    Ok(_) => (charged, Ok(sha256_digest(bytes))),
                }
            },
        }
    }
}

impl<C: Copy> Host<C> {
    /// A copy of the bytes of the byte string that `obj` leads to.
    pub fn bytes_of_object(&self, obj: Object) -> (r: Result<Vec<u8>, HostError>)
        ensures
            match r {
                Ok(b) => self@.bytes_at(obj) == Ok::<Seq<u8>, HostError>(b@),
                Err(e) => self@.bytes_at(obj) == Err::<Seq<u8>, HostError>(e),
            },
    {
        match self.visit_obj(obj) {
            Err(e) => Err(e),
            Ok(HostObject::Bytes(b)) => Ok(bytes_clone(b.as_slice())),
            Ok(_) => Err(HostError::new(ScErrorType::Object, ScErrorCode::UnexpectedType)),
        }
    }

    /// `u` as a `u32`. Fails with the unknown error, reported to the trace with `msg`,
    /// when `u` does not fit.
    pub fn usize_to_u32(&mut self, u: usize, msg: &'static str) -> (r: Result<u32, HostError>)
        ensures
            u <= u32::MAX ==> r == Ok::<u32, HostError>(u as u32) && final(self)@ == old(self)@,
            u > u32::MAX ==> r == Err::<u32, HostError>(HostError { error: Error::spec_unknown() })
                && final(self)@ == old(self)@.error(
                Error::spec_unknown(),
                msg.spec_bytes(),
                Seq::empty(),
            ),
    {
        if u <= u32::MAX as usize {
            Ok(u as u32)
        } else {
            Err(self.error(Error::unknown(), msg, &[]))
        }
    }

    /// `u` as a `U32` value. Fails with `Value`/`ArithDomain` when `u` does not fit.
    pub fn usize_to_rawval_u32(&self, u: usize) -> (r: Result<RawVal, HostError>)
        ensures
            u <= u32::MAX ==> r == Ok::<RawVal, HostError>(RawVal::U32(u as u32)),
            u > u32::MAX ==> r == Err::<RawVal, HostError>(
                HostError::spec_new(ScErrorType::Value, ScErrorCode::ArithDomain),
            ),
    {
        if u <= u32::MAX as usize {
            Ok(RawVal::U32(u as u32))
        } else {
            Err(HostError::new(ScErrorType::Value, ScErrorCode::ArithDomain))
        }
    }

    /// The number that a `U32` value holds, as a `usize`; see
    /// [`Host::u32_from_rawval_input`].
    pub fn usize_from_rawval_u32_input(&mut self, name: &'static str, r: RawVal) -> (res: Result<
        usize,
        HostError,
    >)
        ensures
            match r.spec_as_u32() {
                Some(v) => res == Ok::<usize, HostError>(v as usize) && final(self)@ == old(self)@,
                None => res == Err::<usize, HostError>(
                    HostError::spec_new(ScErrorType::Value, ScErrorCode::UnexpectedType),
                ) && final(self)@ == old(self)@.error(
                    Error::spec_new(ScErrorType::Value, ScErrorCode::UnexpectedType),
                    need_u32_message(name@),
                    seq![r],
                ),
            },
    {
        match self.u32_from_rawval_input(name, r) {
            Ok(u) => Ok(u as usize),
            Err(e) => Err(e),
        }
    }

    /// The number that a `U32` value holds. Fails with `Value`/`UnexpectedType`,
    /// reported to the trace with the value, when `r` is no `U32`.
    pub fn u32_from_rawval_input(&mut self, name: &'static str, r: RawVal) -> (res: Result<
        u32,
        HostError,
    >)
        ensures
            match r.spec_as_u32() {
                Some(v) => res == Ok::<u32, HostError>(v) && final(self)@ == old(self)@,
                None => res == Err::<u32, HostError>(
                    HostError::spec_new(ScErrorType::Value, ScErrorCode::UnexpectedType),
                ) && final(self)@ == old(self)@.error(
                    Error::spec_new(ScErrorType::Value, ScErrorCode::UnexpectedType),
                    need_u32_message(name@),
                    seq![r],
                ),
            },
    {
        match r.as_u32() {
            Some(v) => Ok(v),
            None => {
                let args = [r];
                proof {
                    assert(args@ =~= seq![r]);
                }
                let msg = input_message("unexpected RawVal for input '", name, "', need U32");
                Err(
                    self.err(
                        ScErrorType::Value,
                        ScErrorCode::UnexpectedType,
                        msg.as_str(),
                        args.as_slice(),
                    ),
                )
            },
        }
    }

    /// The 256 bits of the key of an account. Copying them is charged.
    pub fn to_u256_from_account(&mut self, account_id: &AccountId) -> (r: Result<Uint256, HostError>)
        ensures
            final(self)@ == old(self)@.charge(ContractCostType::BytesClone, Some(32u64)).0,
            match old(self)@.charge(ContractCostType::BytesClone, Some(32u64)).1 {
                Ok(_) => r == Ok::<Uint256, HostError>(account_id.0->PublicKeyTypeEd25519_0),
                Err(e) => r == Err::<Uint256, HostError>(e),
            },
    {
        match self.charge_budget(ContractCostType::BytesClone, Some(32)) {
            Err(e) => Err(e),
            Ok(()) => {
                let AccountId(AccountPublicKey::PublicKeyTypeEd25519(ed25519)) = *account_id;
                Ok(ed25519)
            },
        }
    }

    /// The 256 bits that the byte string `a` holds. Copying them is charged. Fails
    /// with the unknown error, reported to the trace, when the byte string does not
    /// hold exactly 32 bytes.
    pub fn to_u256(&mut self, a: Object) -> (r: Result<Uint256, HostError>)
        ensures
            match old(self)@.bytes_at(a) {
                Err(e) => r == Err::<Uint256, HostError>(e) && final(self)@ == old(self)@,
                Ok(bytes) => match old(self)@.charge(
                    ContractCostType::BytesClone,
                    Some(32u64),
                ).1 {
                    Err(e) => r == Err::<Uint256, HostError>(e) && final(self)@ == old(self)@.charge(
                        ContractCostType::BytesClone,
                        Some(32u64),
                    ).0,
                    Ok(_) => if bytes.len() == 32 {
                        &&& r matches Ok(u)
                        &&& u@ == bytes
                        &&& final(self)@ == old(self)@.charge(
                            ContractCostType::BytesClone,
                            Some(32u64),
                        ).0
                    } else {
                        &&& r == Err::<Uint256, HostError>(HostError { error: Error::spec_unknown() })
                        &&& final(self)@ == old(self)@.charge(
                            ContractCostType::BytesClone,
                            Some(32u64),
                        ).0.error(Error::spec_unknown(), bad_u256_length_message(), Seq::empty())
                    },
                },
            },
    {
        let bytes = match self.bytes_of_object(a) {
            Err(e) => {
                return Err(e);
            },
            Ok(b) => b,
        };
        match self.charge_budget(ContractCostType::BytesClone, Some(32)) {
            Err(e) => {
                return Err(e);
            },
            Ok(()) => {},
        }
        match array_from_slice::<32>(bytes.as_slice()) {
            Ok(arr) => Ok(Uint256(arr)),
            Err(_) => Err(self.error(Error::unknown(), "bad u256 length", &[])),
        }
    }

    /// The number that a `U32` value holds, as a byte. Fails with
    /// `Value`/`UnexpectedType`, reported to the trace with the value, when `r` is no
    /// `U32` or holds more than 255.
    pub fn u8_from_rawval_input(&mut self, name: &'static str, r: RawVal) -> (res: Result<
        u8,
        HostError,
    >)
        ensures
            match r.spec_as_u32() {
                Some(v) if v <= 255 => res == Ok::<u8, HostError>(v as u8) && final(self)@ == old(self)@,
                _ => res == Err::<u8, HostError>(
                    HostError::spec_new(ScErrorType::Value, ScErrorCode::UnexpectedType),
                ) && final(self)@ == old(self)@.error(
                    Error::spec_new(ScErrorType::Value, ScErrorCode::UnexpectedType),
                    if r.spec_as_u32() is Some {
                        need_u8_message(name@)
                    } else {
                        need_u32_message(name@)
                    },
                    seq![r],
                ),
            },
    {
        let u = match self.u32_from_rawval_input(name, r) {
            Err(e) => {
                return Err(e);
            },
            Ok(u) => u,
        };
        if u <= 255 {
            Ok(u as u8)
        } else {
            let args = [r];
            proof {
                assert(args@ =~= seq![r]);
            }
            let msg = input_message(
                "unexpected RawVal for input '",
                name,
                "', need u32 no greater than 255",
            );
            Err(
                self.err(
                    ScErrorType::Value,
                    ScErrorCode::UnexpectedType,
                    msg.as_str(),
                    args.as_slice(),
                ),
            )
        }
    }

    /// A value of fixed length made from the bytes of a slice. Fails with
    /// `Object`/`UnexpectedSize`, reported to the trace, when the slice does not hold
    /// exactly `N` bytes. Copying the bytes is charged.
    pub fn fixed_length_bytes_from_slice<T, const N: usize>(
        &mut self,
        name: &'static str,
        bytes_arr: &[u8],
    ) -> (r: Result<T, HostError>) where T: From<[u8; N]>
        ensures
            final(self)@ == old(self)@.fixed_length_bytes(name@, bytes_arr@, N as nat).0,
            match old(self)@.fixed_length_bytes(name@, bytes_arr@, N as nat).1 {
                Err(e) => r == Err::<T, HostError>(e),
                Ok(_) => r is Ok && exists|arr: [u8; N]|
                    arr@ == bytes_arr@ && call_ensures(T::from, (arr,), r->Ok_0),
            },
    {
        match array_from_slice::<N>(bytes_arr) {
            Ok(arr) => {
                match self.charge_budget(ContractCostType::BytesClone, Some(N as u64)) {
                    Err(e) => Err(e),
                    Ok(()) => {
                        let t = T::from(arr);
                        Ok(t)
                    },
                }
            },
            Err(_) => {
                let msg = input_message("byte string has wrong length for input '", name, "'");
                Err(
                    self.err(
                        ScErrorType::Object,
                        ScErrorCode::UnexpectedSize,
                        msg.as_str(),
                        &[],
                    ),
                )
            },
        }
    }

    /// A value of fixed length made from the bytes of the byte string that `obj` leads
    /// to; see [`Host::fixed_length_bytes_from_slice`].
    pub fn fixed_length_bytes_from_obj_input<T, const N: usize>(
        &mut self,
        name: &'static str,
        obj: Object,
    ) -> (r: Result<T, HostError>) where T: From<[u8; N]>
        ensures
            final(self)@ == old(self)@.fixed_length_bytes_of(name@, obj, N as nat).0,
            match old(self)@.fixed_length_bytes_of(name@, obj, N as nat).1 {
                Err(e) => r == Err::<T, HostError>(e),
                Ok(bytes) => r is Ok && exists|arr: [u8; N]|
                    arr@ == bytes && call_ensures(T::from, (arr,), r->Ok_0),
            },
    {
        let bytes = match self.bytes_of_object(obj) {
            Err(e) => {
                return Err(e);
            },
            Ok(b) => b,
        };
        self.fixed_length_bytes_from_slice::<T, N>(name, bytes.as_slice())
    }

    /// The identifier that the byte string `hash` holds.
    pub fn hash_from_obj_input(&mut self, name: &'static str, hash: Object) -> (r: Result<
        Hash256,
        HostError,
    >)
        ensures
            final(self)@ == old(self)@.fixed_length_bytes_of(name@, hash, 32).0,
            match old(self)@.fixed_length_bytes_of(name@, hash, 32).1 {
                Err(e) => r == Err::<Hash256, HostError>(e),
                Ok(bytes) => r == Ok::<Hash256, HostError>(Hash256::spec_from_seq(bytes)),
            },
    {
        let r = self.fixed_length_bytes_from_obj_input::<Hash256, 32>(name, hash);
        proof {
            if r is Ok {
                let bytes = old(self)@.fixed_length_bytes_of(name@, hash, 32).1->Ok_0;
                assert(r->Ok_0.0 =~= Hash256::spec_from_seq(bytes).0);
            }
        }
        r
    }

    /// The identifier that the byte string `hash` holds.
    pub fn hash_from_bytesobj_input(&mut self, name: &'static str, hash: BytesObject) -> (r: Result<
        Hash256,
        HostError,
    >)
        ensures
            final(self)@ == old(self)@.fixed_length_bytes_of(name@, hash.spec_to_object(), 32).0,
            match old(self)@.fixed_length_bytes_of(name@, hash.spec_to_object(), 32).1 {
                Err(e) => r == Err::<Hash256, HostError>(e),
                Ok(bytes) => r == Ok::<Hash256, HostError>(Hash256::spec_from_seq(bytes)),
            },
    {
        self.hash_from_obj_input(name, hash.to_object())
    }

    /// The 256 bits that the byte string `u256` holds.
    pub fn uint256_from_obj_input(&mut self, name: &'static str, u256: Object) -> (r: Result<
        Uint256,
        HostError,
    >)
        ensures
            final(self)@ == old(self)@.fixed_length_bytes_of(name@, u256, 32).0,
            match old(self)@.fixed_length_bytes_of(name@, u256, 32).1 {
                Err(e) => r == Err::<Uint256, HostError>(e),
                Ok(bytes) => r matches Ok(u) && u@ == bytes,
            },
    {
        self.fixed_length_bytes_from_obj_input::<Uint256, 32>(name, u256)
    }

    /// The signature that a slice holds. Fails with `Object`/`UnexpectedSize` when the
    /// slice does not hold exactly 64 bytes, and with `Crypto`/`InvalidInput` when the
    /// scalar of the signature is not reduced; both are reported to the trace.
    pub fn signature_from_bytes(&mut self, name: &'static str, bytes: &[u8]) -> (r: Result<
        ed25519_dalek::Signature,
        HostError,
    >)
        ensures
            final(self)@ == old(self)@.ed25519_signature(name@, bytes@).0,
            match old(self)@.ed25519_signature(name@, bytes@).1 {
                Err(e) => r == Err::<ed25519_dalek::Signature, HostError>(e),
                Ok(_) => r is Ok,
            },
    {
        match array_from_slice::<64>(bytes) {
            Ok(arr) => {
                match self.charge_budget(ContractCostType::BytesClone, Some(64)) {
                    Err(e) => Err(e),
                    Ok(()) => {
                        if arr[63] & 0xe0 == 0 {
                            Ok(signature_from_array(arr))
                        } else {
                            Err(
                                self.err(
                                    ScErrorType::Crypto,
                                    ScErrorCode::InvalidInput,
                                    "invalid signature",
                                    &[],
                                ),
                            )
                        }
                    },
                }
            },
            Err(_) => {
                let msg = input_message("byte string has wrong length for input '", name, "'");
                Err(
                    self.err(
                        ScErrorType::Object,
                        ScErrorCode::UnexpectedSize,
                        msg.as_str(),
                        &[],
                    ),
                )
            },
        }
    }

    /// The signature that the byte string `sig` holds; see
    /// [`Host::signature_from_bytes`].
    pub fn signature_from_obj_input(&mut self, name: &'static str, sig: Object) -> (r: Result<
        ed25519_dalek::Signature,
        HostError,
    >)
        ensures
            match old(self)@.bytes_at(sig) {
                Err(e) => r == Err::<ed25519_dalek::Signature, HostError>(e) && final(self)@
                    == old(self)@,
                Ok(bytes) => final(self)@ == old(self)@.ed25519_signature(name@, bytes).0
                    && match old(self)@.ed25519_signature(name@, bytes).1 {
                    Err(e) => r == Err::<ed25519_dalek::Signature, HostError>(e),
                    Ok(_) => r is Ok,
                },
            },
    {
        let bytes = match self.bytes_of_object(sig) {
            Err(e) => {
                return Err(e);
            },
            Ok(b) => b,
        };
        self.signature_from_bytes(name, bytes.as_slice())
    }

    /// The public key that a slice holds. Decoding is charged by the number of bytes.
    /// Fails with `Crypto`/`InvalidInput`, reported to the trace, when the bytes are
    /// not the compressed form of a point of the curve.
    pub fn ed25519_pub_key_from_bytes(&mut self, bytes: &[u8]) -> (r: Result<
        ed25519_dalek::PublicKey,
        HostError,
    >)
        ensures
            final(self)@ == old(self)@.ed25519_pub_key(bytes@).0,
            match old(self)@.ed25519_pub_key(bytes@).1 {
                Err(e) => r == Err::<ed25519_dalek::PublicKey, HostError>(e),
                Ok(_) => r is Ok,
            },
    {
        match self.charge_budget(ContractCostType::ComputeEd25519PubKey, Some(bytes.len() as u64)) {
            Err(e) => {
                return Err(e);
            },
            Ok(()) => {},
        }
        match public_key_from_bytes(bytes) {
            Ok(k) => Ok(k),
            Err(_) => Err(
                self.err(ScErrorType::Crypto, ScErrorCode::InvalidInput, "invalid public key", &[]),
            ),
        }
    }

    /// The public key that the byte string `k` holds; see
    /// [`Host::ed25519_pub_key_from_bytes`].
    pub fn ed25519_pub_key_from_obj_input(&mut self, k: Object) -> (r: Result<
        ed25519_dalek::PublicKey,
        HostError,
    >)
        ensures
            match old(self)@.bytes_at(k) {
                Err(e) => r == Err::<ed25519_dalek::PublicKey, HostError>(e) && final(self)@
                    == old(self)@,
                Ok(bytes) => final(self)@ == old(self)@.ed25519_pub_key(bytes).0
                    && match old(self)@.ed25519_pub_key(bytes).1 {
                    Err(e) => r == Err::<ed25519_dalek::PublicKey, HostError>(e),
                    Ok(_) => r is Ok,
                },
            },
    {
        let bytes = match self.bytes_of_object(k) {
            Err(e) => {
                return Err(e);
            },
            Ok(b) => b,
        };
        self.ed25519_pub_key_from_bytes(bytes.as_slice())
    }

    /// The account whose key the byte string `k` holds.
    pub fn account_id_from_bytes(&mut self, k: Object) -> (r: Result<AccountId, HostError>)
        ensures
            final(self)@ == old(self)@.fixed_length_bytes_of("account_id"@, k, 32).0,
            match old(self)@.fixed_length_bytes_of("account_id"@, k, 32).1 {
                Err(e) => r == Err::<AccountId, HostError>(e),
                Ok(bytes) => r matches Ok(a) && a.0->PublicKeyTypeEd25519_0@ == bytes,
            },
    {
        match self.fixed_length_bytes_from_obj_input::<Uint256, 32>("account_id", k) {
            Err(e) => Err(e),
            Ok(u) => Ok(AccountId(AccountPublicKey::PublicKeyTypeEd25519(u))),
        }
    }

    /// The SHA-256 digest of the bytes of the byte string `x`. Hashing is charged by
    /// the number of bytes.
    pub fn sha256_hash_from_bytes_input(&mut self, x: Object) -> (r: Result<Vec<u8>, HostError>)
        ensures
            final(self)@ == old(self)@.sha256_of(x).0,
            match old(self)@.sha256_of(x).1 {
                Err(e) => r == Err::<Vec<u8>, HostError>(e),
                Ok(digest) => r matches Ok(v) && v@ == digest && v@.len() == 32,
            },
    {
        let bytes = match self.bytes_of_object(x) {
            Err(e) => {
                return Err(e);
            },
            Ok(b) => b,
        };
        match self.charge_budget(ContractCostType::ComputeSha256Hash, Some(bytes.len() as u64)) {
            Err(e) => {
                return Err(e);
            },
            Ok(()) => {},
        }
        let hash = sha256(bytes.as_slice());
        if hash.len() != 32 {
            return Err(self.error(Error::unknown(), "incorrect hash size", &[]));
        }
        Ok(hash)
    }

    /// Converts a binary search result into a `u64`. `res` is `Ok(index)` if the value
    /// was found at `index`, or `Err(index)` if the value was not found and would have
    /// needed to be inserted at `index`. In the result the high 32 bits are 1 if the
    /// element was found and 0 if it was not, and the low 32 bits are the index. Fails
    /// with the unknown error, reported to the trace, when the index does not fit in 32
    /// bits.
    pub fn u64_from_binary_search_result(&mut self, res: Result<usize, usize>) -> (r: Result<
        u64,
        HostError,
    >)
        ensures
            ({
                let index = match res {
                    Ok(u) => u,
                    Err(u) => u,
                };
                &&& index <= u32::MAX ==> r == Ok::<u64, HostError>(
                    spec_u64_from_binary_search_result(res) as u64,
                ) && final(self)@ == old(self)@
                &&& index > u32::MAX ==> r == Err::<u64, HostError>(
                    HostError { error: Error::spec_unknown() },
                ) && final(self)@ == old(self)@.error(
                    Error::spec_unknown(),
                    "outside range".spec_bytes(),
                    Seq::empty(),
                )
            }),
    {
        match res {
            Ok(u) => {
                match self.usize_to_u32(u, "outside range") {
                    Err(e) => Err(e),
                    Ok(v) => {
                        let w: u64 = v as u64;
                        assert(w | (1u64 << 32) == w + 0x1_0000_0000u64) by (bit_vector)
                            requires
                                w <= 0xffff_ffffu64,
                        ;
                        Ok(w | (1u64 << 32))
                    },
                }
            },
            Err(u) => {
                match self.usize_to_u32(u, "outside range") {
                    Err(e) => Err(e),
                    Ok(v) => Ok(v as u64),
                }
            },
        }
    }
}


/// How deeply values may be nested in a conversion.
pub const DEFAULT_HOST_DEPTH_LIMIT: u32 = 100;

/// The error that reports a value nested too deeply to convert.
pub open spec fn depth_limit_exceeded() -> HostError {
    HostError::spec_new(ScErrorType::Context, ScErrorCode::ExceededLimit)
}

/// The error that reports an object whose content is no self-contained value.
pub open spec fn not_convertible() -> HostError {
    HostError::spec_new(ScErrorType::Value, ScErrorCode::InvalidInput)
}

/// The self-contained value that the host value `v` stands for, given the objects of
/// the store. An object is followed to its content, sequences item by item, to at
/// most `depth` levels of nesting. The first item that cannot be converted fails the
/// conversion.
pub open spec fn spec_from_host_val(objects: Seq<HostObjectView>, v: RawVal, depth: nat) -> Result<
    ScValView,
    HostError,
>
    decreases depth, 0nat,
{
    match v {
        RawVal::Void => Ok(ScValView::Void),
        RawVal::LedgerKeyContractExecutable => Ok(ScValView::LedgerKeyContractExecutable),
        RawVal::Bool(b) => Ok(ScValView::Bool(b)),
        RawVal::U32(x) => Ok(ScValView::U32(x)),
        RawVal::I32(x) => Ok(ScValView::I32(x)),
        RawVal::Error(e) => Ok(ScValView::Error(e)),
        RawVal::Symbol(s) => Ok(ScValView::Symbol(s)),
        RawVal::Object(o) => if o.handle >= objects.len() {
            Err(unknown_reference())
        } else if objects[o.handle as int].kind() != o.kind {
            Err(unexpected_object_type())
        } else {
            match objects[o.handle as int] {
                HostObjectView::Vec(items) => if depth == 0 {
                    Err(depth_limit_exceeded())
                } else {
                    match spec_from_host_vals(objects, items, (depth - 1) as nat) {
                        Err(e) => Err(e),
                        Ok(vs) => Ok(ScValView::Vec(vs)),
                    }
                },
                HostObjectView::OrdMap(pairs) => if depth == 0 {
                    Err(depth_limit_exceeded())
                } else {
                    match spec_from_host_vals(
                        objects,
                        pairs.map_values(|p: (RawVal, RawVal)| p.0),
                        (depth - 1) as nat,
                    ) {
                        Err(e) => Err(e),
                        Ok(ks) => match spec_from_host_vals(
                            objects,
                            pairs.map_values(|p: (RawVal, RawVal)| p.1),
                            (depth - 1) as nat,
                        ) {
                            Err(e) => Err(e),
                            Ok(vs) => Ok(ScValView::OrdMap(ks.zip_with(vs))),
                        },
                    }
                },
                HostObjectView::U64(x) => Ok(ScValView::U64(x)),
                HostObjectView::I64(x) => Ok(ScValView::I64(x)),
                HostObjectView::TimePoint(x) => Ok(ScValView::TimePoint(x)),
                HostObjectView::Duration(x) => Ok(ScValView::Duration(x)),
                HostObjectView::U128(x) => Ok(ScValView::U128(x)),
                HostObjectView::I128(x) => Ok(ScValView::I128(x)),
                HostObjectView::U256(x) => Ok(ScValView::U256(x)),
                HostObjectView::I256(x) => Ok(ScValView::I256(x)),
                HostObjectView::Bytes(b) => Ok(ScValView::Bytes(b)),
                HostObjectView::String(b) => Ok(ScValView::String(b)),
                HostObjectView::Symbol(b) => if is_symbol_name(b) {
                    Ok(ScValView::Symbol(Symbol::spec_from_bytes(b)))
                } else {
                    Err(not_convertible())
                },
                HostObjectView::ContractExecutable(e) => Ok(ScValView::ContractExecutable(e)),
                HostObjectView::Address(a) => Ok(ScValView::Address(a)),
                HostObjectView::NonceKey(k) => Ok(ScValView::LedgerKeyNonce(k)),
            }
        },
    }
}

/// The self-contained values that the host values `items` stand for, in order; see
/// [`spec_from_host_val`].
pub open spec fn spec_from_host_vals(
    objects: Seq<HostObjectView>,
    items: Seq<RawVal>,
    depth: nat,
) -> Result<Seq<ScValView>, HostError>
    decreases depth, items.len() + 1,
{
    if items.len() == 0 {
        Ok(Seq::empty())
    } else {
        match spec_from_host_vals(objects, items.drop_last(), depth) {
            Err(e) => Err(e),
            Ok(vs) => match spec_from_host_val(objects, items.last(), depth) {
                Err(e) => Err(e),
                Ok(v) => Ok(vs.push(v)),
            },
        }
    }
}

impl<C> HostView<C> {
    /// The self-contained value that `v` stands for on this host.
    pub open spec fn from_host_val(self, v: RawVal) -> Result<ScValView, HostError> {
        spec_from_host_val(self.objects, v, DEFAULT_HOST_DEPTH_LIMIT as nat)
    }

    /// The host after an attempt to store `obj`, and the handle as a value.
    pub open spec fn add_object_val(self, obj: HostObjectView) -> (
        HostView<C>,
        Result<RawVal, HostError>,
    ) {
        match self.add_object(obj).1 {
            Ok(o) => (self.add_object(obj).0, Ok(RawVal::Object(o))),
            Err(e) => (self.add_object(obj).0, Err(e)),
        }
    }

    /// The host after the self-contained value `v` was brought into it, and the host
    /// value that stands for it. Whatever is not small enough to be held inline is
    /// stored as an object, the items of a sequence before the sequence itself, and
    /// the keys of a mapping before its values, to at most `depth` levels of nesting.
    pub open spec fn to_host_val(self, v: ScValView, depth: nat) -> (
        HostView<C>,
        Result<RawVal, HostError>,
    )
        decreases depth, 0nat,
    {
        match v {
            ScValView::Void => (self, Ok(RawVal::Void)),
            ScValView::Bool(b) => (self, Ok(RawVal::Bool(b))),
            ScValView::U32(x) => (self, Ok(RawVal::U32(x))),
            ScValView::I32(x) => (self, Ok(RawVal::I32(x))),
            ScValView::Error(e) => (self, Ok(RawVal::Error(e))),
            ScValView::Symbol(s) => (self, Ok(RawVal::Symbol(s))),
            ScValView::U64(x) => self.add_object_val(HostObjectView::U64(x)),
            ScValView::I64(x) => self.add_object_val(HostObjectView::I64(x)),
            ScValView::TimePoint(x) => self.add_object_val(HostObjectView::TimePoint(x)),
            ScValView::Duration(x) => self.add_object_val(HostObjectView::Duration(x)),
            ScValView::U128(x) => self.add_object_val(HostObjectView::U128(x)),
            ScValView::I128(x) => self.add_object_val(HostObjectView::I128(x)),
            ScValView::U256(x) => self.add_object_val(HostObjectView::U256(x)),
            ScValView::I256(x) => self.add_object_val(HostObjectView::I256(x)),
            ScValView::Bytes(b) => self.add_object_val(HostObjectView::Bytes(b)),
            ScValView::String(b) => self.add_object_val(HostObjectView::String(b)),
            ScValView::Vec(items) => if depth == 0 {
                (self, Err(depth_limit_exceeded()))
            } else {
                let (h, r) = self.to_host_vals(items, (depth - 1) as nat);
                match r {
                    Err(e) => (h, Err(e)),
                    Ok(raws) => h.add_object_val(HostObjectView::Vec(raws)),
                }
            },
            ScValView::OrdMap(pairs) => if depth == 0 {
                (self, Err(depth_limit_exceeded()))
            } else {
                let (h1, r1) = self.to_host_vals(
                    pairs.map_values(|p: (ScValView, ScValView)| p.0),
                    (depth - 1) as nat,
                );
                match r1 {
                    Err(e) => (h1, Err(e)),
                    Ok(ks) => {
                        let (h2, r2) = h1.to_host_vals(
                            pairs.map_values(|p: (ScValView, ScValView)| p.1),
                            (depth - 1) as nat,
                        );
                        match r2 {
                            Err(e) => (h2, Err(e)),
                            Ok(vs) => h2.add_object_val(HostObjectView::OrdMap(ks.zip_with(vs))),
                        }
                    },
                }
            },
            ScValView::ContractExecutable(e) => self.add_object_val(
                HostObjectView::ContractExecutable(e),
            ),
            ScValView::Address(a) => self.add_object_val(HostObjectView::Address(a)),
            ScValView::LedgerKeyContractExecutable => (self, Ok(RawVal::LedgerKeyContractExecutable)),
            ScValView::LedgerKeyNonce(k) => self.add_object_val(HostObjectView::NonceKey(k)),
        }
    }

    /// The host after the self-contained values `items` were brought into it, one
    /// after the other, and the host values that stand for them; see
    /// [`HostView::to_host_val`]. The first item that cannot be brought in fails the
    /// whole, and nothing after it is touched.
    pub open spec fn to_host_vals(self, items: Seq<ScValView>, depth: nat) -> (
        HostView<C>,
        Result<Seq<RawVal>, HostError>,
    )
        decreases depth, items.len() + 1,
    {
        if items.len() == 0 {
            (self, Ok(Seq::empty()))
        } else {
            let (h1, r1) = self.to_host_vals(items.drop_last(), depth);
            match r1 {
                Err(e) => (h1, Err(e)),
                Ok(raws) => {
                    let (h2, r2) = h1.to_host_val(items.last(), depth);
                    match r2 {
                        Err(e) => (h2, Err(e)),
                        Ok(x) => (h2, Ok(raws.push(x))),
                    }
                },
            }
        }
    }
}

/// The first components of a run of pairs.
pub fn pair_keys(pairs: &[(RawVal, RawVal)]) -> (r: Vec<RawVal>)
    ensures
        r@ == pairs@.map_values(|p: (RawVal, RawVal)| p.0),
{
    let mut v: Vec<RawVal> = Vec::new();
    let mut i: usize = 0;
    while i < pairs.len()
        invariant
            i <= pairs@.len(),
            v@.len() == i,
            forall|j: int| 0 <= j < i ==> v@[j] == pairs@[j].0,
        decreases pairs@.len() - i,
    {
        v.push(pairs[i].0);
        i += 1;
    }
    v
}

/// The second components of a run of pairs.
pub fn pair_values(pairs: &[(RawVal, RawVal)]) -> (r: Vec<RawVal>)
    ensures
        r@ == pairs@.map_values(|p: (RawVal, RawVal)| p.1),
{
    let mut v: Vec<RawVal> = Vec::new();
    let mut i: usize = 0;
    while i < pairs.len()
        invariant
            i <= pairs@.len(),
            v@.len() == i,
            forall|j: int| 0 <= j < i ==> v@[j] == pairs@[j].1,
        decreases pairs@.len() - i,
    {
        v.push(pairs[i].1);
        i += 1;
    }
    v
}

impl<C: Copy> Host<C> {
    /// Converts a host value into a self-contained value.
    pub fn from_host_val(&self, val: RawVal) -> (r: Result<ScVal, HostError>)
        ensures
            match r {
                Ok(v) => self@.from_host_val(val) == Ok::<ScValView, HostError>(v@),
                Err(e) => self@.from_host_val(val) == Err::<ScValView, HostError>(e),
            },
    {
        self.from_host_val_depth(val, DEFAULT_HOST_DEPTH_LIMIT)
    }

    /// Converts a host value into a self-contained value, following objects to at most
    /// `depth` levels of nesting.
    pub fn from_host_val_depth(&self, val: RawVal, depth: u32) -> (r: Result<ScVal, HostError>)
        ensures
            match r {
                Ok(v) => spec_from_host_val(self@.objects, val, depth as nat) == Ok::<
                    ScValView,
                    HostError,
                >(v@),
                Err(e) => spec_from_host_val(self@.objects, val, depth as nat) == Err::<
                    ScValView,
                    HostError,
                >(e),
            },
        decreases depth, 0nat,
    {
        match val {
            RawVal::Void => Ok(ScVal::Void),
            RawVal::LedgerKeyContractExecutable => Ok(ScVal::LedgerKeyContractExecutable),
            RawVal::Bool(b) => Ok(ScVal::Bool(b)),
            RawVal::U32(x) => Ok(ScVal::U32(x)),
            RawVal::I32(x) => Ok(ScVal::I32(x)),
            RawVal::Error(e) => Ok(ScVal::Error(e)),
            RawVal::Symbol(s) => Ok(ScVal::Symbol(s)),
            RawVal::Object(o) => {
                let obj = match self.visit_obj(o) {
                    Err(e) => {
                        return Err(e);
                    },
                    Ok(obj) => obj,
                };
                match obj {
                    HostObject::Vec(items) => {
                        if depth == 0 {
                            return Err(HostError::new(ScErrorType::Context, ScErrorCode::ExceededLimit));
                        }
                        match self.from_host_vals(items.as_slice(), depth - 1) {
                            Err(e) => Err(e),
                            Ok(vs) => {
                                let r = ScVal::Vec(vs);
                                proof {
                                    assert(r@->Vec_0 =~= scvals_view(vs@));
                                }
                                Ok(r)
                            },
                        }
                    },
                    HostObject::OrdMap(pairs) => {
                        if depth == 0 {
                            return Err(HostError::new(ScErrorType::Context, ScErrorCode::ExceededLimit));
                        }
                        let keys = pair_keys(pairs.as_slice());
                        let ks = match self.from_host_vals(keys.as_slice(), depth - 1) {
                            Err(e) => {
                                return Err(e);
                            },
                            Ok(ks) => ks,
                        };
                        let values = pair_values(pairs.as_slice());
                        let vs = match self.from_host_vals(values.as_slice(), depth - 1) {
                            Err(e) => {
                                return Err(e);
                            },
                            Ok(vs) => vs,
                        };
                        proof {
                            lemma_from_host_vals_len(self@.objects, keys@, (depth - 1) as nat);
                            lemma_from_host_vals_len(self@.objects, values@, (depth - 1) as nat);
                        }
                        let r = ScVal::OrdMap(zip_scvals(ks, vs));
                        proof {
                            assert(r@->OrdMap_0 =~= scvals_view(ks@).zip_with(scvals_view(vs@)));
                        }
                        Ok(r)
                    },
                    HostObject::U64(x) => Ok(ScVal::U64(*x)),
                    HostObject::I64(x) => Ok(ScVal::I64(*x)),
                    HostObject::TimePoint(x) => Ok(ScVal::TimePoint(*x)),
                    HostObject::Duration(x) => Ok(ScVal::Duration(*x)),
                    HostObject::U128(x) => Ok(ScVal::U128(*x)),
                    HostObject::I128(x) => Ok(ScVal::I128(*x)),
                    HostObject::U256(x) => Ok(ScVal::U256(*x)),
                    HostObject::I256(x) => Ok(ScVal::I256(*x)),
                    HostObject::Bytes(b) => Ok(ScVal::Bytes(bytes_clone(b.as_slice()))),
                    HostObject::String(b) => Ok(ScVal::String(bytes_clone(b.as_slice()))),
                    HostObject::Symbol(b) => match Symbol::try_from_bytes(b.as_slice()) {
                        Ok(s) => Ok(ScVal::Symbol(s)),
                        Err(e) => Err(HostError { error: e }),
                    },
                    HostObject::ContractExecutable(e) => Ok(ScVal::ContractExecutable(*e)),
                    HostObject::Address(a) => Ok(ScVal::Address(*a)),
                    HostObject::NonceKey(k) => Ok(ScVal::LedgerKeyNonce(*k)),
                }
            },
        }
    }

    /// Converts host values into self-contained values, in order.
    pub fn from_host_vals(&self, items: &[RawVal], depth: u32) -> (r: Result<Vec<ScVal>, HostError>)
        ensures
            match r {
                Ok(vs) => spec_from_host_vals(self@.objects, items@, depth as nat) == Ok::<
                    Seq<ScValView>,
                    HostError,
                >(scvals_view(vs@)),
                Err(e) => spec_from_host_vals(self@.objects, items@, depth as nat) == Err::<
                    Seq<ScValView>,
                    HostError,
                >(e),
            },
        decreases depth, 1nat,
    {
        let mut out: Vec<ScVal> = Vec::new();
        let mut i: usize = 0;
        proof {
            assert(scvals_view(out@) =~= Seq::<ScValView>::empty());
        }
        while i < items.len()
            invariant
                i <= items@.len(),
                spec_from_host_vals(self@.objects, items@.subrange(0, i as int), depth as nat)
                    == Ok::<Seq<ScValView>, HostError>(scvals_view(out@)),
            decreases items@.len() - i,
        {
            proof {
                let next = items@.subrange(0, i + 1);
                assert(next.drop_last() =~= items@.subrange(0, i as int));
                lemma_from_host_vals_prefix_fails(self@.objects, items@, i + 1, depth as nat);
            }
            match self.from_host_val_depth(items[i], depth) {
                Err(e) => {
                    return Err(e);
                },
                Ok(v) => {
                    proof {
                        assert(scvals_view(out@.push(v)) =~= scvals_view(out@).push(v@));
                    }
                    out.push(v);
                },
            }
            i += 1;
        }
        proof {
            assert(items@.subrange(0, i as int) =~= items@);
        }
        Ok(out)
    }
}

/// Pairs two runs of values of equal length.
pub fn zip_scvals(keys: Vec<ScVal>, values: Vec<ScVal>) -> (r: Vec<(ScVal, ScVal)>)
    requires
        keys@.len() == values@.len(),
    ensures
        r@.len() == keys@.len(),
        forall|i: int|
            0 <= i < r@.len() ==> (#[trigger] r@[i]).0@ == keys@[i]@ && r@[i].1@ == values@[i]@,
{
    let mut keys = keys;
    let mut values = values;
    let mut rev: Vec<(ScVal, ScVal)> = Vec::new();
    let ghost n = keys@.len();
    let ghost ks = keys@;
    let ghost vs = values@;
    while keys.len() > 0
        invariant
            keys@.len() == values@.len(),
            keys@.len() + rev@.len() == n,
            keys@ == ks.subrange(0, keys@.len() as int),
            values@ == vs.subrange(0, values@.len() as int),
            ks.len() == n,
            vs.len() == n,
            forall|j: int|
                0 <= j < rev@.len() ==> (#[trigger] rev@[j]).0 == ks[n - 1 - j] && rev@[j].1 == vs[n
                    - 1 - j],
        decreases keys@.len(),
    {
        let k = keys.pop();
        let v = values.pop();
        match (k, v) {
            (Some(k), Some(v)) => {
                rev.push((k, v));
            },
            _ => {},
        }
    }
    let mut out: Vec<(ScVal, ScVal)> = Vec::new();
    while rev.len() > 0
        invariant
            rev@.len() + out@.len() == n,
            ks.len() == n,
            vs.len() == n,
            forall|j: int|
                0 <= j < rev@.len() ==> (#[trigger] rev@[j]).0 == ks[n - 1 - j] && rev@[j].1 == vs[n
                    - 1 - j],
            forall|j: int| 0 <= j < out@.len() ==> (#[trigger] out@[j]).0 == ks[j] && out@[j].1 == vs[j],
        decreases rev@.len(),
    {
        match rev.pop() {
            Some(p) => {
                out.push(p);
            },
            None => {},
        }
    }
    out
}

/// A conversion of a run of values that succeeds gives as many values as it was given.
pub proof fn lemma_from_host_vals_len(objects: Seq<HostObjectView>, items: Seq<RawVal>, depth: nat)
    ensures
        spec_from_host_vals(objects, items, depth) matches Ok(vs) ==> vs.len() == items.len(),
    decreases items.len(),
{
    if items.len() > 0 {
        lemma_from_host_vals_len(objects, items.drop_last(), depth);
    }
}

/// If the conversion of the first `n` values of a run fails, the conversion of the
/// whole run fails in the same way.
pub proof fn lemma_from_host_vals_prefix_fails(
    objects: Seq<HostObjectView>,
    items: Seq<RawVal>,
    n: int,
    depth: nat,
)
    requires
        0 <= n <= items.len(),
    ensures
        spec_from_host_vals(objects, items.subrange(0, n), depth) matches Err(e)
            ==> spec_from_host_vals(objects, items, depth) == Err::<Seq<ScValView>, HostError>(e),
    decreases items.len() - n,
{
    if n < items.len() {
        let next = items.subrange(0, n + 1);
        assert(next.drop_last() =~= items.subrange(0, n));
        lemma_from_host_vals_prefix_fails(objects, items, n + 1, depth);
    } else {
        assert(items.subrange(0, n) =~= items);
    }
}


/// Pairs two runs of host values of equal length.
fn zip_rawvals(ks: &[RawVal], vs: &[RawVal]) -> (r: Vec<(RawVal, RawVal)>)
    requires
        ks@.len() == vs@.len(),
    ensures
        r@ == ks@.zip_with(vs@),
{
    let mut out: Vec<(RawVal, RawVal)> = Vec::new();
    let mut i: usize = 0;
    while i < ks.len() && i < vs.len()
        invariant
            i <= ks@.len(),
            ks@.len() == vs@.len(),
            out@ == ks@.zip_with(vs@).subrange(0, i as int),
        decreases ks@.len() - i,
    {
        out.push((ks[i], vs[i]));
        i += 1;
    }
    proof {
        assert(out@ =~= ks@.zip_with(vs@));
    }
    out
}

/// The first or the second component of each of a run of pairs of values.
pub open spec fn pair_components(pairs: Seq<(ScVal, ScVal)>, second: bool) -> Seq<ScValView> {
    Seq::new(
        pairs.len(),
        |i: int|
            if second {
                pairs[i].1@
            } else {
                pairs[i].0@
            },
    )
}

impl<C: Copy> Host<C> {
    /// Brings a self-contained value into the host.
    pub fn to_host_val(&mut self, v: &ScVal) -> (r: Result<RawVal, HostError>)
        ensures
            final(self)@ == old(self)@.to_host_val(v@, DEFAULT_HOST_DEPTH_LIMIT as nat).0,
            r == old(self)@.to_host_val(v@, DEFAULT_HOST_DEPTH_LIMIT as nat).1,
    {
        self.to_host_val_depth(v, DEFAULT_HOST_DEPTH_LIMIT)
    }

    /// Stores an object and hands back its handle as a value.
    fn add_host_object_val(&mut self, obj: HostObject) -> (r: Result<RawVal, HostError>)
        ensures
            final(self)@ == old(self)@.add_object_val(obj@).0,
            r == old(self)@.add_object_val(obj@).1,
    {
        match self.add_host_object(obj) {
            Ok(o) => Ok(RawVal::Object(o)),
            Err(e) => Err(e),
        }
    }

    /// Brings a self-contained value into the host, to at most `depth` levels of
    /// nesting.
    pub fn to_host_val_depth(&mut self, v: &ScVal, depth: u32) -> (r: Result<RawVal, HostError>)
        ensures
            final(self)@ == old(self)@.to_host_val(v@, depth as nat).0,
            r == old(self)@.to_host_val(v@, depth as nat).1,
        decreases depth, 0nat,
    {
        match v {
            ScVal::Void => Ok(RawVal::Void),
            ScVal::Bool(b) => Ok(RawVal::Bool(*b)),
            ScVal::U32(x) => Ok(RawVal::U32(*x)),
            ScVal::I32(x) => Ok(RawVal::I32(*x)),
            ScVal::Error(e) => Ok(RawVal::Error(*e)),
            ScVal::Symbol(s) => Ok(RawVal::Symbol(*s)),
            ScVal::U64(x) => self.add_host_object_val(HostObject::U64(*x)),
            ScVal::I64(x) => self.add_host_object_val(HostObject::I64(*x)),
            ScVal::TimePoint(x) => self.add_host_object_val(HostObject::TimePoint(*x)),
            ScVal::Duration(x) => self.add_host_object_val(HostObject::Duration(*x)),
            ScVal::U128(x) => self.add_host_object_val(HostObject::U128(*x)),
            ScVal::I128(x) => self.add_host_object_val(HostObject::I128(*x)),
            ScVal::U256(x) => self.add_host_object_val(HostObject::U256(*x)),
            ScVal::I256(x) => self.add_host_object_val(HostObject::I256(*x)),
            ScVal::Bytes(b) => self.add_host_object_val(HostObject::Bytes(bytes_clone(b.as_slice()))),
            ScVal::String(b) => self.add_host_object_val(
                HostObject::String(bytes_clone(b.as_slice())),
            ),
            ScVal::Vec(items) => {
                if depth == 0 {
                    return Err(HostError::new(ScErrorType::Context, ScErrorCode::ExceededLimit));
                }
                proof {
                    assert(v@->Vec_0 =~= scvals_view(items@));
                }
                match self.to_host_vals(items.as_slice(), depth - 1) {
                    Err(e) => Err(e),
                    Ok(raws) => self.add_host_object_val(HostObject::Vec(raws)),
                }
            },
            ScVal::OrdMap(pairs) => {
                if depth == 0 {
                    return Err(HostError::new(ScErrorType::Context, ScErrorCode::ExceededLimit));
                }
                proof {
                    assert(v@->OrdMap_0.map_values(|p: (ScValView, ScValView)| p.0)
                        =~= pair_components(pairs@, false));
                    assert(v@->OrdMap_0.map_values(|p: (ScValView, ScValView)| p.1)
                        =~= pair_components(pairs@, true));
                }
                let ks = match self.to_host_components(pairs.as_slice(), false, depth - 1) {
                    Err(e) => {
                        return Err(e);
                    },
                    Ok(ks) => ks,
                };
                let vs = match self.to_host_components(pairs.as_slice(), true, depth - 1) {
                    Err(e) => {
                        return Err(e);
                    },
                    Ok(vs) => vs,
                };
                proof {
                    lemma_to_host_vals_len(
                        old(self)@,
                        pair_components(pairs@, false),
                        (depth - 1) as nat,
                    );
                    lemma_to_host_vals_len(
                        old(self)@.to_host_vals(
                            pair_components(pairs@, false),
                            (depth - 1) as nat,
                        ).0,
                        pair_components(pairs@, true),
                        (depth - 1) as nat,
                    );
                }
                self.add_host_object_val(HostObject::OrdMap(zip_rawvals(ks.as_slice(), vs.as_slice())))
            },
            ScVal::ContractExecutable(e) => self.add_host_object_val(
                HostObject::ContractExecutable(*e),
            ),
            ScVal::Address(a) => self.add_host_object_val(HostObject::Address(*a)),
            ScVal::LedgerKeyContractExecutable => Ok(RawVal::LedgerKeyContractExecutable),
            ScVal::LedgerKeyNonce(k) => self.add_host_object_val(HostObject::NonceKey(*k)),
        }
    }

    /// Brings self-contained values into the host, in order.
    pub fn to_host_vals(&mut self, items: &[ScVal], depth: u32) -> (r: Result<Vec<RawVal>, HostError>)
        ensures
            final(self)@ == old(self)@.to_host_vals(scvals_view(items@), depth as nat).0,
            match r {
                Ok(raws) => old(self)@.to_host_vals(scvals_view(items@), depth as nat).1 == Ok::<
                    Seq<RawVal>,
                    HostError,
                >(raws@),
                Err(e) => old(self)@.to_host_vals(scvals_view(items@), depth as nat).1 == Err::<
                    Seq<RawVal>,
                    HostError,
                >(e),
            },
        decreases depth, 1nat,
    {
        let ghost views = scvals_view(items@);
        let mut out: Vec<RawVal> = Vec::new();
        let mut i: usize = 0;
        while i < items.len()
            invariant
                i <= items@.len(),
                views == scvals_view(items@),
                self@ == old(self)@.to_host_vals(views.subrange(0, i as int), depth as nat).0,
                old(self)@.to_host_vals(views.subrange(0, i as int), depth as nat).1 == Ok::<
                    Seq<RawVal>,
                    HostError,
                >(out@),
            decreases items@.len() - i,
        {
            proof {
                let next = views.subrange(0, i + 1);
                assert(next.drop_last() =~= views.subrange(0, i as int));
                lemma_to_host_vals_prefix_fails(old(self)@, views, i + 1, depth as nat);
            }
            match self.to_host_val_depth(&items[i], depth) {
                Err(e) => {
                    return Err(e);
                },
                Ok(x) => {
                    out.push(x);
                },
            }
            i += 1;
        }
        proof {
            assert(views.subrange(0, i as int) =~= views);
        }
        Ok(out)
    }

    /// Brings the first components of a run of pairs into the host, in order, or the
    /// second ones if `second` is set.
    fn to_host_components(&mut self, pairs: &[(ScVal, ScVal)], second: bool, depth: u32) -> (r: Result<
        Vec<RawVal>,
        HostError,
    >)
        ensures
            final(self)@ == old(self)@.to_host_vals(pair_components(pairs@, second), depth as nat).0,
            match r {
                Ok(raws) => old(self)@.to_host_vals(
                    pair_components(pairs@, second),
                    depth as nat,
                ).1 == Ok::<Seq<RawVal>, HostError>(raws@),
                Err(e) => old(self)@.to_host_vals(
                    pair_components(pairs@, second),
                    depth as nat,
                ).1 == Err::<Seq<RawVal>, HostError>(e),
            },
        decreases depth, 1nat,
    {
        let ghost views = pair_components(pairs@, second);
        let mut out: Vec<RawVal> = Vec::new();
        let mut i: usize = 0;
        while i < pairs.len()
            invariant
                i <= pairs@.len(),
                views == pair_components(pairs@, second),
                self@ == old(self)@.to_host_vals(views.subrange(0, i as int), depth as nat).0,
                old(self)@.to_host_vals(views.subrange(0, i as int), depth as nat).1 == Ok::<
                    Seq<RawVal>,
                    HostError,
                >(out@),
            decreases pairs@.len() - i,
        {
            proof {
                let next = views.subrange(0, i + 1);
                assert(next.drop_last() =~= views.subrange(0, i as int));
                lemma_to_host_vals_prefix_fails(old(self)@, views, i + 1, depth as nat);
            }
            let x = if second {
                self.to_host_val_depth(&pairs[i].1, depth)
            } else {
                self.to_host_val_depth(&pairs[i].0, depth)
            };
            match x {
                Err(e) => {
                    return Err(e);
                },
                Ok(x) => {
                    out.push(x);
                },
            }
            i += 1;
        }
        proof {
            assert(views.subrange(0, i as int) =~= views);
        }
        Ok(out)
    }
}

/// Bringing in a run of values, when it succeeds, gives as many values as it was
/// given.
pub proof fn lemma_to_host_vals_len<C>(h: HostView<C>, items: Seq<ScValView>, depth: nat)
    ensures
        h.to_host_vals(items, depth).1 matches Ok(raws) ==> raws.len() == items.len(),
    decreases items.len(),
{
    if items.len() > 0 {
        lemma_to_host_vals_len(h, items.drop_last(), depth);
    }
}

/// If bringing in the first `n` values of a run fails, bringing in the whole run
/// fails in the same way, and leaves the host in the same state.
pub proof fn lemma_to_host_vals_prefix_fails<C>(
    h: HostView<C>,
    items: Seq<ScValView>,
    n: int,
    depth: nat,
)
    requires
        0 <= n <= items.len(),
    ensures
        h.to_host_vals(items.subrange(0, n), depth).1 is Err ==> h.to_host_vals(items, depth)
            == h.to_host_vals(items.subrange(0, n), depth),
    decreases items.len() - n,
{
    if n < items.len() {
        let next = items.subrange(0, n + 1);
        assert(next.drop_last() =~= items.subrange(0, n));
        lemma_to_host_vals_prefix_fails(h, items, n + 1, depth);
    } else {
        assert(items.subrange(0, n) =~= items);
    }
}

/// Storing an object and handing out its handle as a value adds at most that
/// object and charges the budget, and does nothing else.
pub proof fn lemma_add_object_val_evolves<C>(h: HostView<C>)
    ensures
        forall|obj: HostObjectView|
            {
                &&& (#[trigger] h.add_object_val(obj)).0.keeps_objects_of(h)
                &&& h.add_object_val(obj).0.frames == h.frames
                &&& h.add_object_val(obj).0.storage == h.storage
                &&& h.add_object_val(obj).0.events == h.events
                &&& h.add_object_val(obj).0.auth == h.auth
            },
{
}

/// Bringing a value into the host adds objects and charges the budget, and does
/// nothing else: it is within what a frame may do, and leaves the frames, the storage
/// map, the event log and the authorisation manager as they are.
pub proof fn lemma_to_host_val_evolves<C>(h: HostView<C>, v: ScValView, depth: nat)
    ensures
        h.to_host_val(v, depth).0.keeps_objects_of(h),
        h.to_host_val(v, depth).0.frames == h.frames,
        h.to_host_val(v, depth).0.storage == h.storage,
        h.to_host_val(v, depth).0.events == h.events,
        h.to_host_val(v, depth).0.auth == h.auth,
    decreases depth, 0nat,
{
    lemma_add_object_val_evolves(h);
    match v {
        ScValView::Vec(items) => {
            if depth > 0 {
                lemma_to_host_vals_evolves(h, items, (depth - 1) as nat);
                lemma_add_object_val_evolves(h.to_host_vals(items, (depth - 1) as nat).0);
            }
        },
        ScValView::OrdMap(pairs) => {
            if depth > 0 {
                let ks = pairs.map_values(|p: (ScValView, ScValView)| p.0);
                let vs = pairs.map_values(|p: (ScValView, ScValView)| p.1);
                lemma_to_host_vals_evolves(h, ks, (depth - 1) as nat);
                let h1 = h.to_host_vals(ks, (depth - 1) as nat).0;
                lemma_to_host_vals_evolves(h1, vs, (depth - 1) as nat);
                lemma_add_object_val_evolves(h1.to_host_vals(vs, (depth - 1) as nat).0);
            }
        },
        _ => {},
    }
}

/// See [`lemma_to_host_val_evolves`].
pub proof fn lemma_to_host_vals_evolves<C>(h: HostView<C>, items: Seq<ScValView>, depth: nat)
    ensures
        h.to_host_vals(items, depth).0.keeps_objects_of(h),
        h.to_host_vals(items, depth).0.frames == h.frames,
        h.to_host_vals(items, depth).0.storage == h.storage,
        h.to_host_vals(items, depth).0.events == h.events,
        h.to_host_vals(items, depth).0.auth == h.auth,
    decreases depth, items.len() + 1,
{
    if items.len() > 0 {
        lemma_to_host_vals_evolves(h, items.drop_last(), depth);
        let h1 = h.to_host_vals(items.drop_last(), depth).0;
        if h.to_host_vals(items.drop_last(), depth).1 is Ok {
            lemma_to_host_val_evolves(h1, items.last(), depth);
        }
    }
}


/// The message for a key that would reach the code of the contract.
pub open spec fn cannot_update_code_message() -> Seq<u8> {
    "cannot update contract code".spec_bytes()
}

/// The message for a key that would reach a nonce.
pub open spec fn cannot_access_nonce_message() -> Seq<u8> {
    "cannot access internal nonce".spec_bytes()
}

/// The message for a host value that has no self-contained counterpart.
pub open spec fn cannot_convert_message() -> Seq<u8> {
    "couldn't convert RawVal".spec_bytes()
}

/// The message for more arguments than a call can take.
pub open spec fn too_many_args_message() -> Seq<u8> {
    "too many args".spec_bytes()
}

/// The key of the entry that contract `contract_id` keeps under `key`.
pub open spec fn contract_data_key(contract_id: Hash256, key: ScValView) -> LedgerKeyView {
    LedgerKeyView::ContractData { contract_id, key }
}

impl<C> HostView<C> {
    /// The host after the current contract was asked for, and that contract. Having no
    /// current contract is a failure, which is reported to the trace:
    /// `Context`/`InvalidAction` on an empty stack, `Context`/`MissingValue` where the
    /// top frame is one of the host itself.
    pub open spec fn current_contract_id_internal(self) -> (HostView<C>, Result<Hash256, HostError>) {
        match self.current_contract_id() {
            Some(id) => (self, Ok(id)),
            None => (
                self.error(
                    Error::spec_new(ScErrorType::Context, self.no_contract_code()),
                    self.no_contract_message(),
                    Seq::empty(),
                ),
                Err(HostError::spec_new(ScErrorType::Context, self.no_contract_code())),
            ),
        }
    }

    /// The host after a key of the storage of the current contract was made from the
    /// self-contained value `key`, and that key.
    pub open spec fn storage_key_from_scval(self, key: ScValView) -> (
        HostView<C>,
        Result<LedgerKeyView, HostError>,
    ) {
        match self.current_contract_id_internal().1 {
            Ok(id) => (self.current_contract_id_internal().0, Ok(contract_data_key(id, key))),
            Err(e) => (self.current_contract_id_internal().0, Err(e)),
        }
    }

    /// The host after a key of the storage of the current contract was made from the
    /// host value `k`, and that key. The current contract is asked for first; then the
    /// value is converted.
    pub open spec fn storage_key_from_rawval(self, k: RawVal) -> (
        HostView<C>,
        Result<LedgerKeyView, HostError>,
    ) {
        match self.current_contract_id_internal().1 {
            Err(e) => (self.current_contract_id_internal().0, Err(e)),
            Ok(id) => match self.from_host_val(k) {
                Err(e) => (self, Err(e)),
                Ok(key) => (self, Ok(contract_data_key(id, key))),
            },
        }
    }

    /// The host after a key for the data of the current contract was made from the
    /// host value `k`, and that key. The value is converted first. The key of the
    /// executable of the contract and the key of a nonce are not keys for data: they
    /// are refused with `Storage`/`InvalidInput`, which is reported to the trace.
    pub open spec fn contract_data_key_from_rawval(self, k: RawVal) -> (
        HostView<C>,
        Result<LedgerKeyView, HostError>,
    ) {
        match self.from_host_val(k) {
            Err(e) => (self, Err(e)),
            Ok(ScValView::LedgerKeyContractExecutable) => (
                self.error(
                    Error::spec_new(ScErrorType::Storage, ScErrorCode::InvalidInput),
                    cannot_update_code_message(),
                    Seq::empty(),
                ),
                Err(HostError::spec_new(ScErrorType::Storage, ScErrorCode::InvalidInput)),
            ),
            Ok(ScValView::LedgerKeyNonce(_)) => (
                self.error(
                    Error::spec_new(ScErrorType::Storage, ScErrorCode::InvalidInput),
                    cannot_access_nonce_message(),
                    Seq::empty(),
                ),
                Err(HostError::spec_new(ScErrorType::Storage, ScErrorCode::InvalidInput)),
            ),
            Ok(key) => self.storage_key_from_scval(key),
        }
    }

    /// The items of the sequence that `obj` leads to.
    pub open spec fn vec_at(self, obj: Object) -> Result<Seq<RawVal>, HostError> {
        match self.object_at(obj) {
            Err(e) => Err(e),
            Ok(HostObjectView::Vec(items)) => Ok(items),
            Ok(_) => Err(unexpected_object_type()),
        }
    }

    /// The host after the host values `raw_vals` were converted into a bounded run of
    /// self-contained values, and that run. A value that cannot be converted, and more
    /// values than the run can hold, fail the conversion with the unknown error, which
    /// is reported to the trace.
    pub open spec fn rawvals_to_scvec(self, raw_vals: Seq<RawVal>) -> (
        HostView<C>,
        Result<Seq<ScValView>, HostError>,
    ) {
        match spec_from_host_vals(self.objects, raw_vals, DEFAULT_HOST_DEPTH_LIMIT as nat) {
            Err(_) => (
                self.error(Error::spec_unknown(), cannot_convert_message(), Seq::empty()),
                Err(HostError { error: Error::spec_unknown() }),
            ),
            Ok(vs) => if vs.len() > SCVEC_LIMIT {
                (
                    self.error(Error::spec_unknown(), too_many_args_message(), Seq::empty()),
                    Err(HostError { error: Error::spec_unknown() }),
                )
            } else {
                (self, Ok(vs))
            },
        }
    }

    /// The host after the identifier of the current contract was stored as a byte
    /// string, and the handle. Having no current contract is a failure. Having no room
    /// or no budget for the object is not: then there is no handle.
    pub open spec fn obj_from_internal_contract_id(self) -> (
        HostView<C>,
        Result<Option<Object>, HostError>,
    ) {
        match self.current_contract_id_internal().1 {
            Err(e) => (self.current_contract_id_internal().0, Err(e)),
            Ok(id) => match self.add_object(HostObjectView::Bytes(id@)).1 {
                Ok(o) => (self.add_object(HostObjectView::Bytes(id@)).0, Ok(Some(o))),
                Err(_) => (self.add_object(HostObjectView::Bytes(id@)).0, Ok(None)),
            },
        }
    }
}

impl<C: Copy> Host<C> {
    /// Converts a [`RawVal`] to an [`ScVal`] and combines it with the currently
    /// executing contract to produce a key that can be used to access the ledger.
    pub fn storage_key_from_rawval(&mut self, k: RawVal) -> (r: Result<LedgerKey, HostError>)
        ensures
            final(self)@ == old(self)@.storage_key_from_rawval(k).0,
            match r {
                Ok(key) => old(self)@.storage_key_from_rawval(k).1 == Ok::<
                    LedgerKeyView,
                    HostError,
                >(key@),
                Err(e) => old(self)@.storage_key_from_rawval(k).1 == Err::<
                    LedgerKeyView,
                    HostError,
                >(e),
            },
    {
        let contract_id = match self.get_current_contract_id_internal() {
            Err(e) => {
                return Err(e);
            },
            Ok(id) => id,
        };
        let key = match self.from_host_val(k) {
            Err(e) => {
                return Err(e);
            },
            Ok(key) => key,
        };
        Ok(LedgerKey::ContractData { contract_id, key })
    }

    /// The key of the entry that contract `contract_id` keeps under `key`.
    pub fn storage_key_for_contract(&self, contract_id: Hash256, key: ScVal) -> (r: LedgerKey)
        ensures
            r@ == contract_data_key(contract_id, key@),
    {
        LedgerKey::ContractData { contract_id, key }
    }

    /// The key of the entry that the currently executing contract keeps under `key`.
    pub fn storage_key_from_scval(&mut self, key: ScVal) -> (r: Result<LedgerKey, HostError>)
        ensures
            final(self)@ == old(self)@.storage_key_from_scval(key@).0,
            match r {
                Ok(k) => old(self)@.storage_key_from_scval(key@).1 == Ok::<LedgerKeyView, HostError>(
                    k@,
                ),
                Err(e) => old(self)@.storage_key_from_scval(key@).1 == Err::<
                    LedgerKeyView,
                    HostError,
                >(e),
            },
    {
        match self.get_current_contract_id_internal() {
            Err(e) => Err(e),
            Ok(contract_id) => Ok(LedgerKey::ContractData { contract_id, key }),
        }
    }

    /// The key of the entry that the currently executing contract keeps under the
    /// value `k`, for the use of the contract itself: the keys that the host keeps for
    /// its own purposes are refused.
    pub fn contract_data_key_from_rawval(&mut self, k: RawVal) -> (r: Result<LedgerKey, HostError>)
        ensures
            final(self)@ == old(self)@.contract_data_key_from_rawval(k).0,
            match r {
                Ok(key) => old(self)@.contract_data_key_from_rawval(k).1 == Ok::<
                    LedgerKeyView,
                    HostError,
                >(key@),
                Err(e) => old(self)@.contract_data_key_from_rawval(k).1 == Err::<
                    LedgerKeyView,
                    HostError,
                >(e),
            },
    {
        let key_scval = match self.from_host_val(k) {
            Err(e) => {
                return Err(e);
            },
            Ok(key) => key,
        };
        match &key_scval {
            ScVal::LedgerKeyContractExecutable => {
                return Err(
                    self.err(
                        ScErrorType::Storage,
                        ScErrorCode::InvalidInput,
                        "cannot update contract code",
                        &[],
                    ),
                );
            },
            ScVal::LedgerKeyNonce(_) => {
                return Err(
                    self.err(
                        ScErrorType::Storage,
                        ScErrorCode::InvalidInput,
                        "cannot access internal nonce",
                        &[],
                    ),
                );
            },
            _ => (),
        };
        self.storage_key_from_scval(key_scval)
    }

    /// The arguments of a call, given as a sequence object.
    pub fn call_args_from_obj(&self, args: Object) -> (r: Result<Vec<RawVal>, HostError>)
        ensures
            match r {
                Ok(v) => self@.vec_at(args) == Ok::<Seq<RawVal>, HostError>(v@),
                Err(e) => self@.vec_at(args) == Err::<Seq<RawVal>, HostError>(e),
            },
    {
        match self.visit_obj(args) {
            Err(e) => Err(e),
            Ok(HostObject::Vec(hv)) => Ok(crate::host_object::rawvals_clone(hv.as_slice())),
            Ok(_) => Err(HostError::new(ScErrorType::Object, ScErrorCode::UnexpectedType)),
        }
    }

    /// The arguments of a call, given as a sequence object, as self-contained values.
    pub fn call_args_to_scvec(&mut self, args: Object) -> (r: Result<ScVec, HostError>)
        ensures
            match old(self)@.vec_at(args) {
                Err(e) => final(self)@ == old(self)@ && r == Err::<ScVec, HostError>(e),
                Ok(items) => final(self)@ == old(self)@.rawvals_to_scvec(items).0 && match r {
                    Ok(v) => old(self)@.rawvals_to_scvec(items).1 == Ok::<
                        Seq<ScValView>,
                        HostError,
                    >(v@),
                    Err(e) => old(self)@.rawvals_to_scvec(items).1 == Err::<
                        Seq<ScValView>,
                        HostError,
                    >(e),
                },
            },
    {
        let items = match self.call_args_from_obj(args) {
            Err(e) => {
                return Err(e);
            },
            Ok(items) => items,
        };
        self.rawvals_to_scvec(items.as_slice())
    }

    /// Host values as a bounded run of self-contained values.
    pub fn rawvals_to_scvec(&mut self, raw_vals: &[RawVal]) -> (r: Result<ScVec, HostError>)
        ensures
            final(self)@ == old(self)@.rawvals_to_scvec(raw_vals@).0,
            match r {
                Ok(v) => old(self)@.rawvals_to_scvec(raw_vals@).1 == Ok::<
                    Seq<ScValView>,
                    HostError,
                >(v@),
                Err(e) => old(self)@.rawvals_to_scvec(raw_vals@).1 == Err::<
                    Seq<ScValView>,
                    HostError,
                >(e),
            },
    {
        match self.from_host_vals(raw_vals, DEFAULT_HOST_DEPTH_LIMIT) {
            Err(_) => Err(self.error(Error::unknown(), "couldn't convert RawVal", &[])),
            Ok(vs) => {
                if vs.len() > SCVEC_LIMIT {
                    Err(self.error(Error::unknown(), "too many args", &[]))
                } else {
                    Ok(ScVec(vs))
                }
            },
        }
    }

    /// Self-contained values brought into the host, in order.
    pub fn scvals_to_rawvals(&mut self, sc_vals: &[ScVal]) -> (r: Result<Vec<RawVal>, HostError>)
        ensures
            final(self)@ == old(self)@.to_host_vals(
                scvals_view(sc_vals@),
                DEFAULT_HOST_DEPTH_LIMIT as nat,
            ).0,
            match r {
                Ok(raws) => old(self)@.to_host_vals(
                    scvals_view(sc_vals@),
                    DEFAULT_HOST_DEPTH_LIMIT as nat,
                ).1 == Ok::<Seq<RawVal>, HostError>(raws@),
                Err(e) => old(self)@.to_host_vals(
                    scvals_view(sc_vals@),
                    DEFAULT_HOST_DEPTH_LIMIT as nat,
                ).1 == Err::<Seq<RawVal>, HostError>(e),
            },
    {
        self.to_host_vals(sc_vals, DEFAULT_HOST_DEPTH_LIMIT)
    }

    /// The identifier of the currently executing contract as a byte string of the
    /// host.
    pub fn obj_from_internal_contract_id(&mut self) -> (r: Result<Option<Object>, HostError>)
        ensures
            final(self)@ == old(self)@.obj_from_internal_contract_id().0,
            r == old(self)@.obj_from_internal_contract_id().1,
    {
        match self.get_current_contract_id_internal() {
            Err(e) => Err(e),
            Ok(id) => match self.add_host_object(HostObject::Bytes(id.to_vec())) {
                Ok(o) => Ok(Some(o)),
                Err(_) => Ok(None),
            },
        }
    }
}

} // verus!
