use soroban_env_host::auth::{AuthorizationManager, AuthorizedInvocation};
use soroban_env_host::budget::{Budget, ContractCostType};
use soroban_env_host::host::frame::{Frame, TestContractFrame};
use soroban_env_host::storage::StorageMap;
use soroban_env_host::val::{
    BytesObject, Error, Hash256, HostError, Object, ObjectKind, RawVal, ScErrorCode, ScErrorType,
    Symbol, VecObject,
};
use soroban_env_host::xdr::{
    bytes_clone, bytes_eq, AccountId, AccountPublicKey, HostFunctionArgs, HostFunctionType,
    LedgerEntry, LedgerKey, ScAddress, ScContractExecutable, ScNonceKey, ScVal, Uint256,
    UploadContractWasmArgs, I256, U256,
};

fn id(n: u8) -> Hash256 {
    Hash256([n; 32])
}

fn sym(s: &str) -> Symbol {
    Symbol::try_from_str(s).unwrap()
}

fn budget_exceeded() -> HostError {
    HostError { error: Error { type_: ScErrorType::Budget, code: ScErrorCode::ExceededLimit } }
}

#[test]
fn hash_round_trips_through_bytes() {
    let bytes: Vec<u8> = (0..32).collect();
    let h = Hash256::from_slice(&bytes).unwrap();
    assert_eq!(h.to_vec(), bytes);
    assert_eq!(h.0[5], 5);
    assert_eq!(Hash256::from(h.0), h);
    assert_eq!(Hash256::from_slice(&bytes[..31]), None);
    assert_eq!(Hash256::from_slice(&[0u8; 33]), None);
    assert_eq!(Hash256::from_slice(&[]), None);
}

#[test]
fn hash_equality_compares_every_byte() {
    let a = id(1);
    let mut b = id(1);
    assert!(a == b);
    b.0[31] = 2;
    assert!(a != b);
    b.0[31] = 1;
    b.0[0] = 0;
    assert!(a != b);
}

#[test]
fn symbol_holds_names_of_letters_digits_and_underscores() {
    let s = Symbol::try_from_bytes(b"fn_Return_9").unwrap();
    assert_eq!(s.to_bytes(), b"fn_Return_9".to_vec());
    assert_eq!(s.len, 11);
    assert_eq!(s.chars[0], b'f');
    assert_eq!(s.chars[11], 0);
    assert_eq!(Symbol::try_from_str("").unwrap().to_bytes(), Vec::<u8>::new());
    let longest = [b'a'; 32];
    assert_eq!(Symbol::try_from_bytes(&longest).unwrap().to_bytes(), longest.to_vec());

    let invalid = Err(Error { type_: ScErrorType::Value, code: ScErrorCode::InvalidInput });
    assert_eq!(Symbol::try_from_bytes(&[b'a'; 33]), invalid);
    assert_eq!(Symbol::try_from_str("a b"), invalid);
    assert_eq!(Symbol::try_from_str("a-b"), invalid);
    assert_eq!(Symbol::try_from_str("caf\u{e9}"), invalid);
    assert_eq!(Symbol::try_from_bytes(&[0]), invalid);
    for c in [b'/', b':', b'@', b'[', b'`', b'{'] {
        assert_eq!(Symbol::try_from_bytes(&[c]), invalid);
    }
    for c in [b'0', b'9', b'A', b'Z', b'a', b'z', b'_'] {
        assert!(Symbol::try_from_bytes(&[c]).is_ok());
    }
}

#[test]
fn symbol_knows_the_reserved_prefix() {
    assert!(sym("__check_auth").is_reserved());
    assert!(sym("__").is_reserved());
    assert!(!sym("_").is_reserved());
    assert!(!sym("_a_").is_reserved());
    assert!(!sym("a__").is_reserved());
    assert!(!sym("").is_reserved());
}

#[test]
fn symbols_are_the_same_when_their_names_are() {
    assert!(sym("abc").same(&sym("abc")));
    assert!(!sym("abc").same(&sym("abd")));
    assert!(!sym("abc").same(&sym("ab")));
    assert_eq!(sym("abc"), sym("abc"));
}

#[test]
fn raw_values_give_what_they_hold() {
    let e = Error::from_type_and_code(ScErrorType::Crypto, ScErrorCode::InvalidInput);
    assert_eq!(e, Error { type_: ScErrorType::Crypto, code: ScErrorCode::InvalidInput });
    assert_eq!(e.to_raw(), RawVal::Error(e));
    assert_eq!(RawVal::Error(e).as_error(), Some(e));
    assert_eq!(RawVal::U32(3).as_error(), None);
    assert_eq!(RawVal::U32(3).as_u32(), Some(3));
    assert_eq!(RawVal::I32(3).as_u32(), None);
    let o = Object { kind: ObjectKind::Bytes, handle: 4 };
    assert_eq!(RawVal::Object(o).as_object(), Some(o));
    assert_eq!(RawVal::Void.as_object(), None);
    assert_eq!(BytesObject { handle: 4 }.to_object(), o);
    assert_eq!(BytesObject { handle: 4 }.to_raw(), RawVal::Object(o));
    assert_eq!(VecObject { handle: 4 }.to_object(), Object { kind: ObjectKind::Vec, handle: 4 });
    assert_eq!(
        VecObject { handle: 4 }.to_raw(),
        RawVal::Object(Object { kind: ObjectKind::Vec, handle: 4 })
    );
    assert_eq!(sym("x").to_raw(), RawVal::Symbol(sym("x")));
}

#[test]
fn budget_charges_a_fixed_and_a_linear_part() {
    let mut b = Budget::new(1_000_000);
    assert_eq!(b.charge(ContractCostType::GuardFrame, None), Ok(()));
    assert_eq!(b.consumed, 4050);
    assert_eq!(b.charge(ContractCostType::GuardFrame, Some(1000)), Ok(()));
    assert_eq!(b.consumed, 8100);
    assert_eq!(b.charge(ContractCostType::HostMemAlloc, Some(10)), Ok(()));
    assert_eq!(b.consumed, 8100 + 883 + 10);
    assert_eq!(b.charge(ContractCostType::BytesClone, Some(32)), Ok(()));
    assert_eq!(b.consumed, 8993 + 24 + 32);
    assert_eq!(b.charge(ContractCostType::ComputeSha256Hash, Some(3)), Ok(()));
    assert_eq!(b.consumed, 9049 + 2924 + 33 * 3);
    assert_eq!(b.charge(ContractCostType::ComputeEd25519PubKey, Some(32)), Ok(()));
    assert_eq!(b.consumed, 12072 + 25766);
    assert_eq!(b.charge(ContractCostType::ComputeSha256Hash, None), Ok(()));
    assert_eq!(b.consumed, 37838 + 2924);
    assert_eq!(b.remaining(), 1_000_000 - 40762);
}

#[test]
fn budget_fails_once_the_limit_would_be_passed() {
    let mut b = Budget::new(4050);
    assert_eq!(b.charge(ContractCostType::GuardFrame, None), Ok(()));
    assert_eq!(b.consumed, 4050);
    assert_eq!(b.remaining(), 0);
    assert_eq!(b.charge(ContractCostType::BytesClone, Some(0)), Err(budget_exceeded()));

    let mut b = Budget::new(4049);
    assert_eq!(b.charge(ContractCostType::GuardFrame, None), Err(budget_exceeded()));
    assert_eq!(b.consumed, 4049);

    // the largest input does not overflow
    let mut b = Budget::new(u64::MAX);
    assert_eq!(
        b.charge(ContractCostType::ComputeSha256Hash, Some(u64::MAX)),
        Err(budget_exceeded())
    );
    assert_eq!(b.consumed, u64::MAX);
    let mut b = Budget::new(u64::MAX);
    assert_eq!(b.charge(ContractCostType::BytesClone, Some(u64::MAX - 24)), Ok(()));
    assert_eq!(b.consumed, u64::MAX);
}

#[test]
fn suspended_budget_charges_nothing() {
    let mut b = Budget::new(10);
    let was = b.suspend();
    assert!(was);
    assert_eq!(b.charge(ContractCostType::ComputeEd25519PubKey, Some(32)), Ok(()));
    assert_eq!(b.consumed, 0);
    assert!(!b.suspend());
    b.resume(was);
    assert!(b.enabled);
    assert_eq!(b.charge(ContractCostType::ComputeEd25519PubKey, Some(32)), Err(budget_exceeded()));
}

fn key(n: u32) -> LedgerKey {
    LedgerKey::ContractData { contract_id: id(1), key: ScVal::U32(n) }
}

fn entry(n: u32, v: u32) -> LedgerEntry {
    LedgerEntry::ContractData { contract_id: id(1), key: ScVal::U32(n), val: ScVal::U32(v) }
}

#[test]
fn storage_map_gives_the_latest_binding() {
    let mut m = StorageMap::new();
    assert_eq!(m.get(&key(1)), None);
    m.put(key(1), Some(entry(1, 10)));
    m.put(key(2), Some(entry(2, 20)));
    assert_eq!(m.get(&key(1)), Some(&entry(1, 10)));
    assert_eq!(m.get(&key(2)), Some(&entry(2, 20)));
    m.put(key(1), Some(entry(1, 11)));
    assert_eq!(m.get(&key(1)), Some(&entry(1, 11)));
    m.put(key(2), None);
    assert_eq!(m.get(&key(2)), None);
    assert_eq!(m.get(&key(3)), None);
    assert_eq!(m.len(), 4);
    // keys of different kinds and contracts are different keys
    assert_eq!(m.get(&LedgerKey::ContractCode { hash: id(1) }), None);
    assert_eq!(m.get(&LedgerKey::ContractData { contract_id: id(2), key: ScVal::U32(1) }), None);
}

#[test]
fn storage_map_copy_is_independent_of_the_original() {
    let mut m = StorageMap::new();
    m.put(key(1), Some(entry(1, 10)));
    m.put(key(2), None);
    let copy = m.clone();
    m.put(key(1), Some(entry(1, 11)));
    m.put(key(3), Some(entry(3, 30)));
    assert_eq!(copy.len(), 2);
    assert_eq!(copy.get(&key(1)), Some(&entry(1, 10)));
    assert_eq!(copy.get(&key(2)), None);
    assert_eq!(copy.get(&key(3)), None);
    assert_eq!(m.get(&key(1)), Some(&entry(1, 11)));
}

#[test]
fn values_are_the_same_when_their_content_is() {
    let nested = |n: u32| {
        ScVal::Vec(vec![
            ScVal::U32(n),
            ScVal::Bytes(vec![1, 2]),
            ScVal::OrdMap(vec![(ScVal::Symbol(sym("k")), ScVal::Vec(vec![ScVal::I64(-1)]))]),
        ])
    };
    assert!(nested(1).same(&nested(1)));
    assert!(!nested(1).same(&nested(2)));
    assert!(!ScVal::Vec(vec![]).same(&ScVal::OrdMap(vec![])));
    assert!(ScVal::Vec(vec![]).same(&ScVal::Vec(vec![])));
    assert!(!ScVal::Vec(vec![ScVal::Void]).same(&ScVal::Vec(vec![])));
    assert!(!ScVal::Bytes(vec![1]).same(&ScVal::String(vec![1])));
    assert!(!ScVal::U32(1).same(&ScVal::I32(1)));
    assert!(!ScVal::U64(1).same(&ScVal::TimePoint(1)));
    assert!(ScVal::Duration(5).same(&ScVal::Duration(5)));
    assert!(ScVal::U128(5).same(&ScVal::U128(5)));
    assert!(!ScVal::I128(5).same(&ScVal::I128(-5)));
    assert!(ScVal::U256(U256 { hi: 1, lo: 2 }).same(&ScVal::U256(U256 { hi: 1, lo: 2 })));
    assert!(!ScVal::U256(U256 { hi: 1, lo: 2 }).same(&ScVal::U256(U256 { hi: 2, lo: 1 })));
    assert!(ScVal::I256(I256 { hi: -1, lo: 2 }).same(&ScVal::I256(I256 { hi: -1, lo: 2 })));
    assert!(ScVal::Void.same(&ScVal::Void));
    assert!(!ScVal::Void.same(&ScVal::Bool(false)));
    assert!(ScVal::LedgerKeyContractExecutable.same(&ScVal::LedgerKeyContractExecutable));
    let e = Error { type_: ScErrorType::Auth, code: ScErrorCode::InvalidAction };
    assert!(ScVal::Error(e).same(&ScVal::Error(e)));

    let account = ScAddress::Account(AccountId(AccountPublicKey::PublicKeyTypeEd25519(Uint256([3; 32]))));
    let contract = ScAddress::Contract(id(3));
    assert!(account.same(&account));
    assert!(!account.same(&contract));
    assert!(contract.same(&ScAddress::Contract(id(3))));
    assert!(!contract.same(&ScAddress::Contract(id(4))));
    assert!(ScVal::Address(account).same(&ScVal::Address(account)));
    assert!(ScVal::LedgerKeyNonce(ScNonceKey { nonce_address: contract })
        .same(&ScVal::LedgerKeyNonce(ScNonceKey { nonce_address: contract })));
    assert!(ScContractExecutable::Token.same(&ScContractExecutable::Token));
    assert!(!ScContractExecutable::Token.same(&ScContractExecutable::WasmRef(id(1))));
    assert!(ScContractExecutable::WasmRef(id(1)).same(&ScContractExecutable::WasmRef(id(1))));
    assert!(ScVal::ContractExecutable(ScContractExecutable::Token)
        .same(&ScVal::ContractExecutable(ScContractExecutable::Token)));

    assert!(key(1).same(&key(1)));
    assert!(!key(1).same(&key(2)));
    assert!(!key(1).same(&LedgerKey::ContractCode { hash: id(1) }));
    assert!(LedgerKey::ContractCode { hash: id(1) }.same(&LedgerKey::ContractCode { hash: id(1) }));
}

#[test]
fn byte_helpers_copy_and_compare() {
    assert_eq!(bytes_clone(&[1, 2, 3]), vec![1, 2, 3]);
    assert_eq!(bytes_clone(&[]), Vec::<u8>::new());
    assert!(bytes_eq(&[1, 2], &[1, 2]));
    assert!(!bytes_eq(&[1, 2], &[1, 3]));
    assert!(!bytes_eq(&[1, 2], &[1]));
}

#[test]
fn frames_know_their_contract() {
    let f = Frame::TestContract(TestContractFrame::new(id(1), sym("f"), vec![]));
    assert_eq!(f.contract_id(), Some(id(1)));
    assert_eq!(f.invocation(), Some((id(1), sym("f"))));
    assert_eq!(f.captured_error(), None);
    let f = Frame::Token(id(2), sym("g"), vec![]);
    assert_eq!(f.contract_id(), Some(id(2)));
    assert_eq!(f.invocation(), Some((id(2), sym("g"))));
    let f = Frame::HostFunction(HostFunctionType::UploadContractWasm);
    assert_eq!(f.contract_id(), None);
    assert_eq!(f.invocation(), None);
    assert_eq!(
        HostFunctionArgs::UploadContractWasm(UploadContractWasmArgs { code: vec![] }).discriminant(),
        HostFunctionType::UploadContractWasm
    );
    assert_eq!(HostFunctionArgs::InvokeContract(vec![]).discriminant(), HostFunctionType::InvokeContract);
}

#[test]
fn enforcing_manager_uses_each_authorisation_once() {
    let mut m = AuthorizationManager::new_enforcing();
    assert!(!m.is_recording());
    let refused = Err(HostError { error: Error { type_: ScErrorType::Auth, code: ScErrorCode::InvalidAction } });
    assert_eq!(m.authorize(id(1), sym("f")), refused);
    m.set_authorization_entries(vec![
        AuthorizedInvocation { contract_id: id(1), function: sym("g"), exhausted: false },
        AuthorizedInvocation { contract_id: id(1), function: sym("f"), exhausted: false },
        AuthorizedInvocation { contract_id: id(1), function: sym("f"), exhausted: false },
    ]);
    assert_eq!(m.authorize(id(2), sym("f")), refused);
    assert_eq!(m.authorize(id(1), sym("f")), Ok(()));
    assert_eq!(m.entry(0).unwrap().exhausted, false);
    assert_eq!(m.entry(1).unwrap().exhausted, true);
    assert_eq!(m.entry(2).unwrap().exhausted, false);
    assert_eq!(m.authorize(id(1), sym("f")), Ok(()));
    assert_eq!(m.entry(2).unwrap().exhausted, true);
    assert_eq!(m.authorize(id(1), sym("f")), refused);
    assert_eq!(m.entries_len(), 3);
    assert_eq!(m.entry(3), None);
}

#[test]
fn manager_snapshot_puts_the_authorisations_back() {
    let mut m = AuthorizationManager::new_enforcing();
    m.set_authorization_entries(vec![AuthorizedInvocation {
        contract_id: id(1),
        function: sym("f"),
        exhausted: false,
    }]);
    let snapshot = m.snapshot();
    assert_eq!(m.authorize(id(1), sym("f")), Ok(()));
    assert!(m.entry(0).unwrap().exhausted);
    m.rollback(snapshot);
    assert!(!m.entry(0).unwrap().exhausted);
    assert_eq!(m.authorize(id(1), sym("f")), Ok(()));
}

#[test]
fn recording_manager_records_and_emulates() {
    let mut b = Budget::new(1_000_000);
    let mut m = AuthorizationManager::new_recording();
    assert!(m.is_recording());
    assert_eq!(m.authorize(id(1), sym("f")), Ok(()));
    assert_eq!(m.authorize(id(1), sym("f")), Ok(()));
    assert_eq!(m.entries_len(), 2);
    assert_eq!(
        m.entry(1),
        Some(AuthorizedInvocation { contract_id: id(1), function: sym("f"), exhausted: true })
    );
    assert!(!m.has_emulated_authentication());
    assert_eq!(m.maybe_emulate_authentication(&mut b), Ok(()));
    assert!(m.has_emulated_authentication());
    assert_eq!(b.consumed, 883 + 2);

    let mut enforcing = AuthorizationManager::new_enforcing();
    assert_eq!(enforcing.maybe_emulate_authentication(&mut b), Ok(()));
    assert!(!enforcing.has_emulated_authentication());
    assert_eq!(b.consumed, 883 + 2);

    let mut empty = Budget::new(0);
    let mut m = AuthorizationManager::new_recording();
    assert_eq!(m.maybe_emulate_authentication(&mut empty), Err(budget_exceeded()));
    assert!(!m.has_emulated_authentication());
}

#[test]
fn manager_tracks_contract_frames_only() {
    let mut b = Budget::new(1_000_000);
    let mut m = AuthorizationManager::new_enforcing();
    assert_eq!(m.push_frame(&mut b, &Frame::HostFunction(HostFunctionType::InvokeContract)), Ok(()));
    assert_eq!(m.call_stack_len(), 0);
    assert_eq!(b.consumed, 0);
    assert_eq!(
        m.push_frame(&mut b, &Frame::TestContract(TestContractFrame::new(id(1), sym("f"), vec![]))),
        Ok(())
    );
    assert_eq!(m.call_stack_len(), 1);
    assert_eq!(b.consumed, 56);
    m.pop_frame();
    assert_eq!(m.call_stack_len(), 0);
    m.pop_frame();
    assert_eq!(m.call_stack_len(), 0);
    assert!(!m.is_in_use());
    m.set_in_use(true);
    assert!(m.is_in_use());

    let mut empty = Budget::new(55);
    assert_eq!(
        m.push_frame(&mut empty, &Frame::Token(id(1), sym("f"), vec![])),
        Err(budget_exceeded())
    );
    assert_eq!(m.call_stack_len(), 0);
}
