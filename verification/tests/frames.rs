use soroban_env_host::budget::Budget;
use soroban_env_host::events::diagnostic::DiagnosticLevel;
use soroban_env_host::host::frame::{Frame, NoFunctions, TestContractFrame};
use soroban_env_host::host::Host;
use soroban_env_host::storage::{Storage, StorageMap};
use soroban_env_host::val::{
    Error, Hash256, HostError, RawVal, ScErrorCode, ScErrorType, Symbol,
};
use soroban_env_host::xdr::{HostFunctionType, LedgerEntry, LedgerKey, ScVal};

fn new_host(limit: u64, recording: bool) -> Host<NoFunctions> {
    Host::with_storage_and_budget(
        Storage { map: StorageMap::new() },
        Budget::new(limit),
        recording,
    )
}

fn id(n: u8) -> Hash256 {
    Hash256([n; 32])
}

fn sym(s: &str) -> Symbol {
    Symbol::try_from_str(s).unwrap()
}

fn data_key(contract: u8, k: u32) -> LedgerKey {
    LedgerKey::ContractData { contract_id: id(contract), key: ScVal::U32(k) }
}

fn data_entry(contract: u8, k: u32, v: u32) -> LedgerEntry {
    LedgerEntry::ContractData { contract_id: id(contract), key: ScVal::U32(k), val: ScVal::U32(v) }
}

fn missing_value() -> HostError {
    HostError { error: Error { type_: ScErrorType::Context, code: ScErrorCode::MissingValue } }
}

fn invalid_action() -> HostError {
    HostError { error: Error { type_: ScErrorType::Context, code: ScErrorCode::InvalidAction } }
}

fn events_of(h: &Host<NoFunctions>) -> Vec<soroban_env_host::events::InternalEvent> {
    (0..h.events_len()).map(|i| h.event(i).unwrap()).collect()
}

#[test]
fn failed_frame_restores_storage_and_events() {
    let mut h = new_host(1_000_000, false);
    h.set_diagnostic_level(DiagnosticLevel::Debug);
    h.storage_put(data_key(9, 1), Some(data_entry(9, 1, 10)));
    h.fn_return_diagnostics(&id(9), &sym("before"), &RawVal::U32(1)).unwrap();
    let events_before = events_of(&h);
    let bindings_before = h.storage_map().len();
    assert_eq!(events_before.len(), 1);
    assert_eq!(bindings_before, 1);

    let r = h.with_test_contract_frame(id(1), sym("f"), |h: &mut Host<NoFunctions>| {
        assert_eq!(h.context_len(), 1);
        h.storage_put(data_key(1, 2), Some(data_entry(1, 2, 20)));
        h.storage_put(data_key(9, 1), None);
        h.fn_return_diagnostics(&id(1), &sym("inside"), &RawVal::U32(2)).unwrap();
        assert_eq!(h.events_len(), 2);
        Err(h.err(ScErrorType::Context, ScErrorCode::MissingValue, "nothing there", &[]))
    });

    assert_eq!(r, Err(missing_value()));
    assert_eq!(h.context_len(), 0);
    assert_eq!(h.storage_map().len(), bindings_before);
    assert_eq!(h.storage_map().get(&data_key(9, 1)), Some(&data_entry(9, 1, 10)));
    assert_eq!(h.storage_map().get(&data_key(1, 2)), None);
    assert_eq!(events_of(&h), events_before);
}

#[test]
fn successful_frame_commits() {
    let mut h = new_host(1_000_000, false);
    h.set_diagnostic_level(DiagnosticLevel::Debug);
    let r = h.with_test_contract_frame(id(1), sym("f"), |h: &mut Host<NoFunctions>| {
        h.storage_put(data_key(1, 2), Some(data_entry(1, 2, 20)));
        h.fn_return_diagnostics(&id(1), &sym("inside"), &RawVal::U32(2)).unwrap();
        Ok(RawVal::U32(5))
    });
    assert_eq!(r, Ok(RawVal::U32(5)));
    assert_eq!(h.context_len(), 0);
    assert_eq!(h.storage_map().get(&data_key(1, 2)), Some(&data_entry(1, 2, 20)));
    assert_eq!(h.events_len(), 1);
}

#[test]
fn outer_failure_reverts_what_the_inner_frame_committed() {
    let mut h = new_host(1_000_000, false);
    h.set_diagnostic_level(DiagnosticLevel::Debug);
    h.storage_put(data_key(9, 1), Some(data_entry(9, 1, 10)));
    let events_before = events_of(&h);

    let r = h.with_test_contract_frame(id(1), sym("outer"), |h: &mut Host<NoFunctions>| {
        h.storage_put(data_key(1, 1), Some(data_entry(1, 1, 11)));
        let inner = h.with_test_contract_frame(id(2), sym("inner"), |h: &mut Host<NoFunctions>| {
            assert_eq!(h.context_len(), 2);
            h.storage_put(data_key(2, 1), Some(data_entry(2, 1, 21)));
            h.fn_return_diagnostics(&id(2), &sym("inner"), &RawVal::Void).unwrap();
            Ok(RawVal::U32(2))
        });
        assert_eq!(inner, Ok(RawVal::U32(2)));
        // the inner frame has committed: its effects are visible here
        assert_eq!(h.context_len(), 1);
        assert_eq!(h.storage_map().get(&data_key(2, 1)), Some(&data_entry(2, 1, 21)));
        assert_eq!(h.events_len(), 1);
        Err(h.err(ScErrorType::Context, ScErrorCode::MissingValue, "outer gives up", &[]))
    });

    assert_eq!(r, Err(missing_value()));
    assert_eq!(h.context_len(), 0);
    assert_eq!(h.storage_map().len(), 1);
    assert_eq!(h.storage_map().get(&data_key(9, 1)), Some(&data_entry(9, 1, 10)));
    assert_eq!(h.storage_map().get(&data_key(1, 1)), None);
    assert_eq!(h.storage_map().get(&data_key(2, 1)), None);
    assert_eq!(events_of(&h), events_before);
}

#[test]
fn inner_failure_keeps_what_the_outer_frame_did() {
    let mut h = new_host(1_000_000, false);
    let r = h.with_test_contract_frame(id(1), sym("outer"), |h: &mut Host<NoFunctions>| {
        h.storage_put(data_key(1, 1), Some(data_entry(1, 1, 11)));
        let inner = h.with_test_contract_frame(id(2), sym("inner"), |h: &mut Host<NoFunctions>| {
            h.storage_put(data_key(2, 1), Some(data_entry(2, 1, 21)));
            Err(HostError { error: Error { type_: ScErrorType::Storage, code: ScErrorCode::MissingValue } })
        });
        assert!(inner.is_err());
        assert_eq!(h.storage_map().get(&data_key(2, 1)), None);
        assert_eq!(h.storage_map().get(&data_key(1, 1)), Some(&data_entry(1, 1, 11)));
        Ok(RawVal::Void)
    });
    assert_eq!(r, Ok(RawVal::Void));
    assert_eq!(h.storage_map().get(&data_key(1, 1)), Some(&data_entry(1, 1, 11)));
    assert_eq!(h.storage_map().get(&data_key(2, 1)), None);
}

#[test]
fn stack_depth_is_the_same_after_every_scope() {
    let mut h = new_host(1_000_000, false);
    let r0 = h.push_frame(Frame::HostFunction(HostFunctionType::InvokeContract));
    assert!(r0.is_ok());
    let depth = h.context_len();
    assert_eq!(depth, 1);
    for fail_outer in [false, true] {
        for fail_middle in [false, true] {
            for fail_inner in [false, true] {
                let r = h.with_test_contract_frame(id(1), sym("a"), |h: &mut Host<NoFunctions>| {
                    let d1 = h.context_len();
                    let _ = h.with_test_contract_frame(id(2), sym("b"), |h: &mut Host<NoFunctions>| {
                        let d2 = h.context_len();
                        let _ = h.with_test_contract_frame(id(3), sym("c"), |_h: &mut Host<NoFunctions>| {
                            if fail_inner {
                                Err(missing_value())
                            } else {
                                Ok(RawVal::Void)
                            }
                        });
                        assert_eq!(h.context_len(), d2);
                        if fail_middle {
                            Err(missing_value())
                        } else {
                            Ok(RawVal::Void)
                        }
                    });
                    assert_eq!(h.context_len(), d1);
                    if fail_outer {
                        Err(missing_value())
                    } else {
                        Ok(RawVal::Void)
                    }
                });
                assert_eq!(r.is_err(), fail_outer);
                assert_eq!(h.context_len(), depth);
            }
        }
    }
}

#[test]
fn success_that_carries_an_error_code_is_a_failure() {
    let code = Error { type_: ScErrorType::Contract, code: ScErrorCode::InvalidInput };

    let mut escalated = new_host(1_000_000, false);
    let r1 = escalated.with_test_contract_frame(id(1), sym("f"), |h: &mut Host<NoFunctions>| {
        h.storage_put(data_key(1, 2), Some(data_entry(1, 2, 20)));
        Ok(RawVal::Error(code))
    });

    let mut failed = new_host(1_000_000, false);
    let r2 = failed.with_test_contract_frame(id(1), sym("f"), |h: &mut Host<NoFunctions>| {
        h.storage_put(data_key(1, 2), Some(data_entry(1, 2, 20)));
        Err(HostError { error: code })
    });

    assert_eq!(r1, Err(HostError { error: code }));
    assert_eq!(r1, r2);
    assert_eq!(escalated.storage_map().len(), 0);
    assert_eq!(failed.storage_map().len(), 0);
    assert_eq!(escalated.events_len(), failed.events_len());
    assert_eq!(escalated.context_len(), failed.context_len());
    assert_eq!(escalated.budget(), failed.budget());
    assert_eq!(escalated.objects_len(), failed.objects_len());
}

#[test]
fn escalation_is_reported_to_the_trace_and_rolled_back() {
    let code = Error { type_: ScErrorType::Contract, code: ScErrorCode::InvalidInput };
    let mut h = new_host(1_000_000, false);
    h.set_diagnostic_level(DiagnosticLevel::Debug);
    let r = h.with_test_contract_frame(id(1), sym("f"), |_h: &mut Host<NoFunctions>| {
        Ok(RawVal::Error(code))
    });
    assert_eq!(r, Err(HostError { error: code }));
    // the report was recorded inside the frame and went with it; its objects stay
    assert_eq!(h.events_len(), 0);
    assert_eq!(h.objects_len(), 4);
}

#[test]
fn escalate_leaves_other_results_alone() {
    let mut h = new_host(1_000_000, false);
    assert_eq!(h.escalate(Ok(RawVal::U32(3))), Ok(RawVal::U32(3)));
    assert_eq!(h.escalate(Err(missing_value())), Err(missing_value()));
    let code = Error { type_: ScErrorType::Auth, code: ScErrorCode::InvalidAction };
    assert_eq!(h.escalate(Ok(RawVal::Error(code))), Err(HostError { error: code }));
}

#[test]
fn guard_frame_is_charged() {
    // a frame of the host: only the guard, 4050
    let mut h = new_host(1_000_000, false);
    let rp = h.push_frame(Frame::HostFunction(HostFunctionType::CreateContract)).unwrap();
    assert_eq!(h.budget().consumed, 0);
    h.pop_frame(Some(rp)).unwrap();

    let mut h = new_host(1_000_000, false);
    let r = h.with_frame(Frame::HostFunction(HostFunctionType::CreateContract), |_h: &mut Host<NoFunctions>| {
        Ok(RawVal::Void)
    });
    assert_eq!(r, Ok(RawVal::Void));
    assert_eq!(h.budget().consumed, 4050);

    // a contract frame: the guard, and 24 + 32 for telling the authorisation manager
    let mut h = new_host(1_000_000, false);
    let r = h.with_test_contract_frame(id(1), sym("f"), |_h: &mut Host<NoFunctions>| Ok(RawVal::Void));
    assert_eq!(r, Ok(RawVal::Void));
    assert_eq!(h.budget().consumed, 4050 + 24 + 32);
}

#[test]
fn scope_fails_when_the_guard_cannot_be_charged() {
    let mut h = new_host(4049, false);
    let mut ran = false;
    let r = h.with_test_contract_frame(id(1), sym("f"), |_h: &mut Host<NoFunctions>| {
        ran = true;
        Ok(RawVal::Void)
    });
    assert_eq!(
        r,
        Err(HostError { error: Error { type_: ScErrorType::Budget, code: ScErrorCode::ExceededLimit } })
    );
    assert!(!ran);
    assert_eq!(h.context_len(), 0);
    assert_eq!(h.budget().consumed, 4049);
}

#[test]
fn scope_fails_when_the_authorisation_manager_cannot_be_told() {
    let mut h = new_host(4050 + 55, false);
    let mut ran = false;
    let r = h.with_test_contract_frame(id(1), sym("f"), |_h: &mut Host<NoFunctions>| {
        ran = true;
        Ok(RawVal::Void)
    });
    assert_eq!(
        r,
        Err(HostError { error: Error { type_: ScErrorType::Budget, code: ScErrorCode::ExceededLimit } })
    );
    assert!(!ran);
    assert_eq!(h.context_len(), 0);
    assert_eq!(h.authorization_manager().call_stack_len(), 0);
}

#[test]
fn push_and_pop_tell_the_authorisation_manager() {
    let mut h = new_host(1_000_000, false);
    let rp = h
        .push_frame(Frame::TestContract(TestContractFrame::new(id(1), sym("f"), vec![])))
        .unwrap();
    assert!(rp.auth.is_some());
    assert_eq!(rp.events, 0);
    assert_eq!(rp.storage.len(), 0);
    assert_eq!(h.authorization_manager().call_stack_len(), 1);
    assert_eq!(h.context_len(), 1);
    h.pop_frame(None).unwrap();
    assert_eq!(h.authorization_manager().call_stack_len(), 0);
    assert_eq!(h.context_len(), 0);
}

#[test]
fn busy_authorisation_manager_is_left_alone() {
    let mut h = new_host(1_000_000, true);
    h.set_authorization_manager_in_use(true);
    let rp = h
        .push_frame(Frame::TestContract(TestContractFrame::new(id(1), sym("f"), vec![])))
        .unwrap();
    assert!(rp.auth.is_none());
    assert_eq!(h.authorization_manager().call_stack_len(), 0);
    assert_eq!(h.budget().consumed, 0);
    h.pop_frame(Some(rp)).unwrap();
    assert_eq!(h.context_len(), 0);
    assert!(!h.authorization_manager().has_emulated_authentication());
}

#[test]
fn last_pop_emulates_authentication_while_recording() {
    let mut h = new_host(1_000_000, true);
    let r = h.with_test_contract_frame(id(1), sym("outer"), |h: &mut Host<NoFunctions>| {
        let inner = h.with_test_contract_frame(id(2), sym("inner"), |_h: &mut Host<NoFunctions>| Ok(RawVal::Void));
        assert_eq!(inner, Ok(RawVal::Void));
        // the stack is not empty yet
        assert!(!h.authorization_manager().has_emulated_authentication());
        Ok(RawVal::Void)
    });
    assert_eq!(r, Ok(RawVal::Void));
    assert!(h.authorization_manager().has_emulated_authentication());

    let mut enforcing = new_host(1_000_000, false);
    let r = enforcing.with_test_contract_frame(id(1), sym("f"), |_h: &mut Host<NoFunctions>| Ok(RawVal::Void));
    assert_eq!(r, Ok(RawVal::Void));
    assert!(!enforcing.authorization_manager().has_emulated_authentication());
}

#[test]
fn failed_scope_rolls_back_even_if_the_emulation_fails() {
    // guard 4050, manager 56, then nothing is left for the emulation (883 + 1 * 1)
    let mut h = new_host(4050 + 56 + 883, true);
    h.set_diagnostic_level(DiagnosticLevel::Debug);
    let r = h.with_test_contract_frame(id(1), sym("f"), |h: &mut Host<NoFunctions>| {
        h.authorize(id(1), sym("f")).unwrap();
        h.storage_put(data_key(1, 1), Some(data_entry(1, 1, 11)));
        Err(h.err(ScErrorType::Context, ScErrorCode::MissingValue, "nothing there", &[]))
    });
    // the error of the invocation is the error of the scope
    assert_eq!(r, Err(missing_value()));
    assert_eq!(h.context_len(), 0);
    assert_eq!(h.storage_map().len(), 0);
    assert_eq!(h.events_len(), 0);
    assert_eq!(h.authorization_manager().entries_len(), 0);
}

#[test]
fn failed_emulation_fails_the_scope_and_rolls_it_back() {
    let mut h = new_host(4050 + 56 + 883, true);
    h.set_diagnostic_level(DiagnosticLevel::Debug);
    let r = h.with_test_contract_frame(id(1), sym("f"), |h: &mut Host<NoFunctions>| {
        h.authorize(id(1), sym("f")).unwrap();
        h.storage_put(data_key(1, 1), Some(data_entry(1, 1, 11)));
        h.fn_return_diagnostics(&id(1), &sym("f"), &RawVal::U32(1)).unwrap();
        assert_eq!(h.storage_map().len(), 1);
        assert_eq!(h.events_len(), 1);
        Ok(RawVal::U32(1))
    });
    assert_eq!(
        r,
        Err(HostError { error: Error { type_: ScErrorType::Budget, code: ScErrorCode::ExceededLimit } })
    );
    assert_eq!(h.context_len(), 0);
    assert_eq!(h.storage_map().len(), 0);
    assert_eq!(h.events_len(), 0);
    assert_eq!(h.authorization_manager().entries_len(), 0);
}

#[test]
fn pop_with_a_rollback_point_rolls_back_even_if_it_fails() {
    // manager 56, then nothing is left for the emulation (883 + 1 * 1)
    let mut h = new_host(56 + 883, true);
    let rp = h
        .push_frame(Frame::TestContract(TestContractFrame::new(id(1), sym("f"), vec![])))
        .unwrap();
    h.authorize(id(1), sym("f")).unwrap();
    h.storage_put(data_key(1, 1), Some(data_entry(1, 1, 11)));
    assert_eq!(
        h.pop_frame(Some(rp)),
        Err(HostError { error: Error { type_: ScErrorType::Budget, code: ScErrorCode::ExceededLimit } })
    );
    assert_eq!(h.context_len(), 0);
    assert_eq!(h.storage_map().len(), 0);

    // without a rollback point everything stays
    let mut h = new_host(56 + 883, true);
    h.push_frame(Frame::TestContract(TestContractFrame::new(id(1), sym("f"), vec![]))).unwrap();
    h.authorize(id(1), sym("f")).unwrap();
    h.storage_put(data_key(1, 1), Some(data_entry(1, 1, 11)));
    assert!(h.pop_frame(None).is_err());
    assert_eq!(h.context_len(), 0);
    assert_eq!(h.storage_map().len(), 1);
}

#[test]
fn rollback_restores_the_authorisations() {
    let mut h = new_host(1_000_000, true);
    let r = h.with_test_contract_frame(id(1), sym("outer"), |h: &mut Host<NoFunctions>| {
        h.authorize(id(1), sym("kept")).unwrap();
        let inner = h.with_test_contract_frame(id(2), sym("inner"), |h: &mut Host<NoFunctions>| {
            h.authorize(id(2), sym("dropped")).unwrap();
            assert_eq!(h.authorization_manager().entries_len(), 2);
            Err(missing_value())
        });
        assert!(inner.is_err());
        assert_eq!(h.authorization_manager().entries_len(), 1);
        Ok(RawVal::Void)
    });
    assert_eq!(r, Ok(RawVal::Void));
    assert_eq!(h.authorization_manager().entries_len(), 1);
    assert_eq!(h.authorization_manager().entry(0).unwrap().function, sym("kept"));
}

#[test]
fn current_contract_is_read_off_the_top_frame() {
    let mut h = new_host(1_000_000, false);
    assert_eq!(h.get_current_contract_id_unmetered(), Ok(None));
    // nothing runs on an empty stack, so nothing may ask
    assert_eq!(h.get_current_contract_id_opt_internal(), Err(invalid_action()));
    assert_eq!(h.get_current_contract_id_internal(), Err(invalid_action()));
    assert_eq!(h.get_invoking_contract_internal(), Err(missing_value()));

    h.push_frame(Frame::HostFunction(HostFunctionType::InvokeContract)).unwrap();
    assert_eq!(h.get_current_contract_id_unmetered(), Ok(None));
    assert_eq!(h.get_current_contract_id_opt_internal(), Ok(None));
    assert_eq!(h.get_current_contract_id_internal(), Err(missing_value()));
    assert_eq!(h.get_invoking_contract_internal(), Err(missing_value()));

    h.push_frame(Frame::TestContract(TestContractFrame::new(id(1), sym("f"), vec![]))).unwrap();
    assert_eq!(h.get_current_contract_id_unmetered(), Ok(Some(id(1))));
    assert_eq!(h.get_current_contract_id_opt_internal(), Ok(Some(id(1))));
    assert_eq!(h.get_current_contract_id_internal(), Ok(id(1)));
    assert_eq!(
        h.get_invoking_contract_internal(),
        Err(HostError { error: Error { type_: ScErrorType::Context, code: ScErrorCode::UnexpectedType } })
    );

    h.push_frame(Frame::Token(id(2), sym("g"), vec![RawVal::U32(1)])).unwrap();
    assert_eq!(h.get_current_contract_id_internal(), Ok(id(2)));
    assert_eq!(h.get_invoking_contract_internal(), Ok(id(1)));
}

#[test]
fn with_current_frame_applies_the_function_to_the_top_frame() {
    let mut h = new_host(1_000_000, false);
    let r: Result<u32, HostError> = h.with_current_frame(|_f: &Frame| Ok(1));
    assert_eq!(r, Err(invalid_action()));
    let r: Result<u32, HostError> = h.with_current_frame_opt(|f: Option<&Frame>| Ok(if f.is_none() { 0 } else { 1 }));
    assert_eq!(r, Ok(0));

    h.push_frame(Frame::TestContract(TestContractFrame::new(id(4), sym("f"), vec![]))).unwrap();
    let r: Result<Option<Hash256>, HostError> = h.with_current_frame(|f: &Frame| Ok(f.contract_id()));
    assert_eq!(r, Ok(Some(id(4))));
    let r: Result<u32, HostError> = h.with_current_frame_opt(|f: Option<&Frame>| Ok(if f.is_none() { 0 } else { 1 }));
    assert_eq!(r, Ok(1));
}

#[test]
fn test_contract_frame_starts_without_an_error() {
    let f = TestContractFrame::new(id(1), sym("f"), vec![RawVal::Bool(true)]);
    assert_eq!(f.id, id(1));
    assert_eq!(f.func, sym("f"));
    assert_eq!(f.args, vec![RawVal::Bool(true)]);
    assert_eq!(f.panic, None);
}
