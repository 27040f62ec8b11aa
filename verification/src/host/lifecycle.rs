//! Bringing code and contracts into being: code is stored under its digest, and a
//! contract under the digest of the salt it is created with.
use crate::budget::ContractCostType;
use crate::crypto::{sha256, sha256_digest};
use crate::host::{Host, HostView};
use crate::host_object::HostObjectView;
use crate::storage::{contract_executable_key, spec_live};
use crate::val::{BytesObject, Error, Hash256, HostError, ScErrorCode, ScErrorType};
use crate::xdr::{
    CreateContractArgs, LedgerEntry, LedgerEntryView, LedgerKey, LedgerKeyView, ScContractExecutable,
    ScVal, ScValView, UploadContractWasmArgs,
};
use vstd::prelude::*;
use vstd::string::*;

verus! {

/// The message for a contract that is there already.
pub open spec fn contract_exists_message() -> Seq<u8> {
    "Contract already exists".spec_bytes()
}

/// The message for a contract whose code is not there.
pub open spec fn wasm_missing_message() -> Seq<u8> {
    "Wasm does not exist".spec_bytes()
}

/// The entry that says what runs when contract `id` is called.
pub open spec fn contract_executable_entry(
    id: Hash256,
    executable: ScContractExecutable,
) -> LedgerEntryView {
    LedgerEntryView::ContractData {
        contract_id: id,
        key: ScValView::LedgerKeyContractExecutable,
        val: ScValView::ContractExecutable(executable),
    }
}

impl<C> HostView<C> {
    /// The host after `bytes` were hashed, and the digest as an identifier. Hashing is
    /// charged by the number of bytes.
    pub open spec fn hash_bytes(self, bytes: Seq<u8>) -> (HostView<C>, Result<Hash256, HostError>) {
        match self.charge(ContractCostType::ComputeSha256Hash, Some(bytes.len() as u64)).1 {
            Err(e) => (
                self.charge(ContractCostType::ComputeSha256Hash, Some(bytes.len() as u64)).0,
                Err(e),
            ),
            Ok(_) => (
                self.charge(ContractCostType::ComputeSha256Hash, Some(bytes.len() as u64)).0,
                Ok(Hash256::spec_from_seq(sha256_digest(bytes))),
            ),
        }
    }

    /// The host after an identifier was stored as a byte string, and the handle.
    pub open spec fn add_hash_object(self, hash: Hash256) -> (
        HostView<C>,
        Result<BytesObject, HostError>,
    ) {
        match self.add_object(HostObjectView::Bytes(hash@)).1 {
            Err(e) => (self.add_object(HostObjectView::Bytes(hash@)).0, Err(e)),
            Ok(o) => (
                self.add_object(HostObjectView::Bytes(hash@)).0,
                Ok(BytesObject { handle: o.handle }),
            ),
        }
    }

    /// The host after `code` was uploaded, and the digest of the code as a byte
    /// string. The code is stored under its digest, unless it is there already.
    pub open spec fn install_contract(self, code: Seq<u8>) -> (
        HostView<C>,
        Result<BytesObject, HostError>,
    ) {
        match self.hash_bytes(code) {
            (h, Err(e)) => (h, Err(e)),
            (h, Ok(hash)) => {
                let key = LedgerKeyView::ContractCode { hash };
                let stored = if spec_live(h.storage, key) is Some {
                    h
                } else {
                    HostView {
                        storage: h.storage.push(
                            (key, Some(LedgerEntryView::ContractCode { hash, code })),
                        ),
                        ..h
                    }
                };
                stored.add_hash_object(hash)
            },
        }
    }

    /// The host after a contract was created from `salt` to run `executable`, and the
    /// identifier of the contract as a byte string. The identifier is the digest of
    /// the salt. A contract that is there already fails the creation with
    /// `Storage`/`ExistingValue`; code that is not there fails it with
    /// `Storage`/`MissingValue`; both are reported to the trace.
    pub open spec fn create_contract(self, salt: Seq<u8>, executable: ScContractExecutable) -> (
        HostView<C>,
        Result<BytesObject, HostError>,
    ) {
        match self.hash_bytes(salt) {
            (h, Err(e)) => (h, Err(e)),
            (h, Ok(id)) => if spec_live(h.storage, contract_executable_key(id)) is Some {
                (
                    h.error(
                        Error::spec_new(ScErrorType::Storage, ScErrorCode::ExistingValue),
                        contract_exists_message(),
                        Seq::empty(),
                    ),
                    Err(HostError::spec_new(ScErrorType::Storage, ScErrorCode::ExistingValue)),
                )
            } else if executable matches ScContractExecutable::WasmRef(wasm_hash) && spec_live(
                h.storage,
                LedgerKeyView::ContractCode { hash: wasm_hash },
            ) is None {
                (
                    h.error(
                        Error::spec_new(ScErrorType::Storage, ScErrorCode::MissingValue),
                        wasm_missing_message(),
                        Seq::empty(),
                    ),
                    Err(HostError::spec_new(ScErrorType::Storage, ScErrorCode::MissingValue)),
                )
            } else {
                (HostView {
                    storage: h.storage.push(
                        (
                            contract_executable_key(id),
                            Some(contract_executable_entry(id, executable)),
                        ),
                    ),
                    ..h
                }).add_hash_object(id)
            },
        }
    }
}

impl<C: Copy> Host<C> {
    /// The SHA-256 digest of `bytes`, as an identifier.
    pub fn hash_bytes(&mut self, bytes: &[u8]) -> (r: Result<Hash256, HostError>)
        ensures
            final(self)@ == old(self)@.hash_bytes(bytes@).0,
            r == old(self)@.hash_bytes(bytes@).1,
    {
        match self.charge_budget(ContractCostType::ComputeSha256Hash, Some(bytes.len() as u64)) {
            Err(e) => Err(e),
            Ok(()) => {
                let digest = sha256(bytes);
                match Hash256::from_slice(digest.as_slice()) {
                    Some(h) => Ok(h),
                    None => Err(HostError { error: Error::unknown() }),
                }
            },
        }
    }

    /// Stores an identifier as a byte string.
    pub fn add_hash_object(&mut self, hash: &Hash256) -> (r: Result<BytesObject, HostError>)
        ensures
            final(self)@ == old(self)@.add_hash_object(*hash).0,
            r == old(self)@.add_hash_object(*hash).1,
    {
        self.hash_to_bytesobj(hash)
    }

    /// Uploads code: stores it under its digest and hands the digest back.
    pub fn install_contract(&mut self, args: UploadContractWasmArgs) -> (r: Result<
        BytesObject,
        HostError,
    >)
        ensures
            final(self)@ == old(self)@.install_contract(args.code@).0,
            r == old(self)@.install_contract(args.code@).1,
    {
        let hash = match self.hash_bytes(args.code.as_slice()) {
            Err(e) => {
                return Err(e);
            },
            Ok(hash) => hash,
        };
        let key = LedgerKey::ContractCode { hash };
        if self.storage_map().get(&key).is_none() {
            self.storage_put(key, Some(LedgerEntry::ContractCode { hash, code: args.code }));
        }
        self.add_hash_object(&hash)
    }

    /// Creates a contract: records what runs when it is called, and hands its
    /// identifier back.
    pub fn create_contract(&mut self, args: CreateContractArgs) -> (r: Result<BytesObject, HostError>)
        ensures
            final(self)@ == old(self)@.create_contract(args.salt@, args.executable).0,
            r == old(self)@.create_contract(args.salt@, args.executable).1,
    {
        let id = match self.hash_bytes(args.salt.as_slice()) {
            Err(e) => {
                return Err(e);
            },
            Ok(id) => id,
        };
        let key = LedgerKey::ContractData {
            contract_id: id,
            key: ScVal::LedgerKeyContractExecutable,
        };
        if self.storage_map().get(&key).is_some() {
            return Err(
                self.err(
                    ScErrorType::Storage,
                    ScErrorCode::ExistingValue,
                    "Contract already exists",
                    &[],
                ),
            );
        }
        match args.executable {
            ScContractExecutable::WasmRef(wasm_hash) => {
                let code_key = LedgerKey::ContractCode { hash: wasm_hash };
                if self.storage_map().get(&code_key).is_none() {
                    return Err(
                        self.err(
                            ScErrorType::Storage,
                            ScErrorCode::MissingValue,
                            "Wasm does not exist",
                            &[],
                        ),
                    );
                }
            },
            ScContractExecutable::Token => {},
        }
        self.storage_put(
            key,
            Some(
                LedgerEntry::ContractData {
                    contract_id: id,
                    key: ScVal::LedgerKeyContractExecutable,
                    val: ScVal::ContractExecutable(args.executable),
                },
            ),
        );
        self.add_hash_object(&id)
    }
}

/// After a contract was created its executable is in storage, under the key that a
/// call of the contract looks it up with.
pub proof fn lemma_created_contract_is_found<C>(
    h: HostView<C>,
    salt: Seq<u8>,
    executable: ScContractExecutable,
)
    requires
        h.create_contract(salt, executable).1 is Ok,
    ensures
        ({
            let id = Hash256::spec_from_seq(sha256_digest(salt));
            spec_live(h.create_contract(salt, executable).0.storage, contract_executable_key(id))
                == Some(contract_executable_entry(id, executable))
        }),
{
    let id = Hash256::spec_from_seq(sha256_digest(salt));
    let charged = h.hash_bytes(salt).0;
}

} // verus!
