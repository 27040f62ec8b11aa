use soroban_env_host::auth::AuthorizedInvocation;
use soroban_env_host::budget::Budget;
use soroban_env_host::events::diagnostic::DiagnosticLevel;
use soroban_env_host::events::InternalEvent;
use soroban_env_host::host::frame::{
    ContractFunctionSet, ContractReentryMode, Frame, NoFunctions, PanicPayload, TestContractFrame,
};
use soroban_env_host::host::Host;
use soroban_env_host::host_object::HostObject;
use soroban_env_host::storage::{Storage, StorageMap};
use soroban_env_host::val::{
    BytesObject, Error, Hash256, HostError, Object, ObjectKind, RawVal, ScErrorCode, ScErrorType,
    Symbol,
};
use soroban_env_host::xdr::{
    ContractAuth, CreateContractArgs, HostFunction, HostFunctionArgs, HostFunctionType, LedgerEntry,
    LedgerKey, ScContractExecutable, ScVal, UploadContractWasmArgs,
};

/// A unit of code for the tests. What it does depends on the function that is called:
///   `ret`     returns 42
///   `first`   returns its first argument
///   `count`   returns the number of its arguments
///   `put`     binds a key in storage and returns void
///   `code`    returns an error code as its value
///   `giveup`  gives up with the text "boom"
///   `silent`  gives up without a reason
///   `record`  records an error in its frame and gives up
///   `hop`     with argument n > 0 calls `hop` with n - 1 on `next` under `mode`,
///             and returns what the call returned, or the error code if it failed;
///             with 0 it returns 42
///   `depth`   returns the depth of the frame stack
///   `me`      returns whether the current contract is `own`
///   `invoker` returns whether the invoking contract is `next`
/// Any other function is unknown to it.
#[derive(Clone, Copy)]
struct Unit {
    own: Hash256,
    next: Hash256,
    mode: ContractReentryMode,
}

fn id(n: u8) -> Hash256 {
    Hash256([n; 32])
}

fn sym(s: &str) -> Symbol {
    Symbol::try_from_str(s).unwrap()
}

fn name(s: &Symbol) -> String {
    String::from_utf8(s.to_bytes()).unwrap()
}

impl ContractFunctionSet for Unit {
    fn call(
        &self,
        func: &Symbol,
        host: &mut Host<Unit>,
        args: &[RawVal],
    ) -> Result<Option<RawVal>, PanicPayload> {
        match name(func).as_str() {
            "ret" | "__reserved" => Ok(Some(RawVal::U32(42))),
            "first" => Ok(Some(args[0])),
            "count" => Ok(Some(RawVal::U32(args.len() as u32))),
            "put" => {
                host.storage_put(
                    LedgerKey::ContractData { contract_id: self.own, key: ScVal::U32(1) },
                    Some(LedgerEntry::ContractData {
                        contract_id: self.own,
                        key: ScVal::U32(1),
                        val: ScVal::U32(2),
                    }),
                );
                Ok(Some(RawVal::Void))
            }
            "code" => Ok(Some(RawVal::Error(Error {
                type_: ScErrorType::Contract,
                code: ScErrorCode::ArithDomain,
            }))),
            "giveup" => Err(PanicPayload { message: Some(String::from("boom")) }),
            "silent" => Err(PanicPayload { message: None }),
            "record" => {
                host.set_captured_error(Error {
                    type_: ScErrorType::Auth,
                    code: ScErrorCode::InvalidAction,
                });
                Err(PanicPayload { message: Some(String::from("recorded")) })
            }
            "hop" => {
                let n = args[0].as_u32().unwrap();
                if n == 0 {
                    Ok(Some(RawVal::U32(42)))
                } else {
                    match host.call_n_internal(
                        &self.next,
                        sym("hop"),
                        &[RawVal::U32(n - 1)],
                        self.mode,
                        false,
                    ) {
                        Ok(v) => Ok(Some(v)),
                        Err(e) => Ok(Some(RawVal::Error(e.error))),
                    }
                }
            }
            "depth" => Ok(Some(RawVal::U32(host.context_len() as u32))),
            "me" => Ok(Some(RawVal::Bool(host.get_current_contract_id_internal() == Ok(self.own)))),
            "invoker" => Ok(Some(RawVal::Bool(host.get_invoking_contract_internal() == Ok(self.next)))),
            _ => Ok(None),
        }
    }
}

fn new_host(limit: u64, recording: bool) -> Host<Unit> {
    Host::with_storage_and_budget(
        Storage { map: StorageMap::new() },
        Budget::new(limit),
        recording,
    )
}

/// A host with contract 1 that hops to contract `a_next` and contract 2 that hops to
/// contract `b_next`, both under `mode`.
fn two_contracts(a_next: u8, b_next: u8, mode: ContractReentryMode) -> Host<Unit> {
    let mut h = new_host(10_000_000, false);
    h.register_test_contract(id(1), Unit { own: id(1), next: id(a_next), mode });
    h.register_test_contract(id(2), Unit { own: id(2), next: id(b_next), mode });
    h
}

fn invalid_action() -> HostError {
    HostError { error: Error { type_: ScErrorType::Context, code: ScErrorCode::InvalidAction } }
}

fn hop(h: &mut Host<Unit>, n: u32) -> Result<RawVal, HostError> {
    h.call_n_internal(&id(1), sym("hop"), &[RawVal::U32(n)], ContractReentryMode::Prohibited, false)
}

#[test]
fn prohibited_refuses_every_reentry() {
    // 1 -> 2 -> 1
    let mut h = two_contracts(2, 1, ContractReentryMode::Prohibited);
    assert_eq!(hop(&mut h, 2), Err(invalid_action()));
    assert_eq!(h.context_len(), 0);
    // 1 -> 1
    let mut h = two_contracts(1, 1, ContractReentryMode::Prohibited);
    assert_eq!(hop(&mut h, 1), Err(invalid_action()));
    // 1 -> 2, no re-entry
    let mut h = two_contracts(2, 1, ContractReentryMode::Prohibited);
    assert_eq!(hop(&mut h, 1), Ok(RawVal::U32(42)));
}

#[test]
fn self_allowed_lets_a_contract_call_itself_but_not_through_another() {
    // 1 -> 1
    let mut h = two_contracts(1, 1, ContractReentryMode::SelfAllowed);
    assert_eq!(hop(&mut h, 1), Ok(RawVal::U32(42)));
    // 1 -> 1 -> 1: the second self-call finds the contract twice on the stack
    let mut h = two_contracts(1, 1, ContractReentryMode::SelfAllowed);
    assert_eq!(hop(&mut h, 2), Err(invalid_action()));
    // 1 -> 2 -> 1
    let mut h = two_contracts(2, 1, ContractReentryMode::SelfAllowed);
    assert_eq!(hop(&mut h, 2), Err(invalid_action()));
}

#[test]
fn allowed_lets_everything_through() {
    let mut h = two_contracts(1, 1, ContractReentryMode::Allowed);
    assert_eq!(hop(&mut h, 3), Ok(RawVal::U32(42)));
    let mut h = two_contracts(2, 1, ContractReentryMode::Allowed);
    assert_eq!(hop(&mut h, 4), Ok(RawVal::U32(42)));
    assert_eq!(h.context_len(), 0);
}

#[test]
fn refused_call_pushes_no_frame_and_charges_nothing() {
    let mut h = two_contracts(2, 1, ContractReentryMode::Prohibited);
    h.push_frame(Frame::TestContract(TestContractFrame::new(id(1), sym("f"), vec![]))).unwrap();
    h.push_frame(Frame::TestContract(TestContractFrame::new(id(2), sym("g"), vec![]))).unwrap();
    let budget = h.budget();
    for mode in [ContractReentryMode::Prohibited, ContractReentryMode::SelfAllowed] {
        let r = h.call_n_internal(&id(1), sym("ret"), &[], mode, false);
        assert_eq!(r, Err(invalid_action()));
        assert_eq!(h.context_len(), 2);
        assert_eq!(h.budget(), budget);
        assert_eq!(h.events_len(), 0);
        assert_eq!(h.objects_len(), 0);
    }
    assert!(!h.check_reentry(&id(1), ContractReentryMode::Prohibited));
    assert!(!h.check_reentry(&id(1), ContractReentryMode::SelfAllowed));
    assert!(h.check_reentry(&id(1), ContractReentryMode::Allowed));
    assert!(!h.check_reentry(&id(2), ContractReentryMode::Prohibited));
    assert!(h.check_reentry(&id(2), ContractReentryMode::SelfAllowed));
    assert!(h.check_reentry(&id(3), ContractReentryMode::Prohibited));
    let r = h.call_n_internal(&id(1), sym("depth"), &[], ContractReentryMode::Allowed, false);
    assert_eq!(r, Ok(RawVal::U32(3)));
    assert_eq!(h.context_len(), 2);
}

#[test]
fn frames_of_the_host_are_skipped_by_the_policy() {
    let mut h = two_contracts(2, 1, ContractReentryMode::Prohibited);
    h.push_frame(Frame::TestContract(TestContractFrame::new(id(1), sym("f"), vec![]))).unwrap();
    h.push_frame(Frame::HostFunction(HostFunctionType::InvokeContract)).unwrap();
    // contract 1 is still the most recent contract frame
    assert!(h.check_reentry(&id(1), ContractReentryMode::SelfAllowed));
    assert!(!h.check_reentry(&id(1), ContractReentryMode::Prohibited));
}

#[test]
fn reserved_functions_are_for_the_host_only() {
    let mut h = two_contracts(2, 1, ContractReentryMode::Prohibited);
    let r = h.call_n_internal(&id(1), sym("__reserved"), &[], ContractReentryMode::Prohibited, false);
    assert_eq!(r, Err(invalid_action()));
    assert_eq!(h.budget().consumed, 0);
    let r = h.call_n_internal(&id(1), sym("__reserved"), &[], ContractReentryMode::Prohibited, true);
    assert_eq!(r, Ok(RawVal::U32(42)));
    // one underscore is not the prefix
    let r = h.call_n_internal(&id(1), sym("_x"), &[], ContractReentryMode::Prohibited, false);
    assert_eq!(
        r,
        Err(HostError { error: Error { type_: ScErrorType::Context, code: ScErrorCode::MissingValue } })
    );
}

#[test]
fn native_contract_sees_its_frame() {
    let mut h = two_contracts(2, 1, ContractReentryMode::Prohibited);
    assert_eq!(
        h.call_n_internal(&id(1), sym("depth"), &[], ContractReentryMode::Prohibited, false),
        Ok(RawVal::U32(1))
    );
    assert_eq!(
        h.call_n_internal(&id(1), sym("me"), &[], ContractReentryMode::Prohibited, false),
        Ok(RawVal::Bool(true))
    );
    assert_eq!(
        h.call_n_internal(&id(1), sym("first"), &[RawVal::I32(-3), RawVal::Void], ContractReentryMode::Prohibited, false),
        Ok(RawVal::I32(-3))
    );
    assert_eq!(
        h.call_n_internal(&id(1), sym("count"), &[RawVal::I32(-3), RawVal::Void], ContractReentryMode::Prohibited, false),
        Ok(RawVal::U32(2))
    );
    assert_eq!(h.context_len(), 0);
}

#[test]
fn unknown_function_is_a_missing_value() {
    let mut h = two_contracts(2, 1, ContractReentryMode::Prohibited);
    let r = h.call_n_internal(&id(1), sym("nothing"), &[], ContractReentryMode::Prohibited, false);
    assert_eq!(
        r,
        Err(HostError { error: Error { type_: ScErrorType::Context, code: ScErrorCode::MissingValue } })
    );
    assert_eq!(h.context_len(), 0);
}

#[test]
fn error_code_returned_by_a_contract_fails_the_call_and_rolls_back() {
    let mut h = two_contracts(2, 1, ContractReentryMode::Prohibited);
    let r = h.call_n_internal(&id(1), sym("put"), &[], ContractReentryMode::Prohibited, false);
    assert_eq!(r, Ok(RawVal::Void));
    assert_eq!(h.storage_map().len(), 1);
    let r = h.call_n_internal(&id(1), sym("code"), &[], ContractReentryMode::Prohibited, false);
    assert_eq!(
        r,
        Err(HostError { error: Error { type_: ScErrorType::Contract, code: ScErrorCode::ArithDomain } })
    );
    assert_eq!(h.storage_map().len(), 1);
}

#[test]
fn unit_that_gives_up_fails_the_call_with_the_unknown_error() {
    for func in ["giveup", "silent"] {
        let mut h = two_contracts(2, 1, ContractReentryMode::Prohibited);
        let r = h.call_n_internal(&id(1), sym(func), &[], ContractReentryMode::Prohibited, false);
        assert_eq!(r, Err(HostError { error: Error::unknown() }));
        assert_eq!(h.context_len(), 0);
        assert_eq!(h.events_len(), 0);
    }
    assert_eq!(Error::unknown(), Error { type_: ScErrorType::Context, code: ScErrorCode::InternalError });
}

#[test]
fn recorded_error_is_what_the_call_fails_with() {
    let mut h = two_contracts(2, 1, ContractReentryMode::Prohibited);
    let r = h.call_n_internal(&id(1), sym("record"), &[], ContractReentryMode::Prohibited, false);
    assert_eq!(
        r,
        Err(HostError { error: Error { type_: ScErrorType::Auth, code: ScErrorCode::InvalidAction } })
    );
    assert_eq!(h.context_len(), 0);
}

#[test]
fn native_outcome_maps_what_a_unit_handed_back() {
    let mut h = new_host(1_000_000, false);
    h.set_diagnostic_level(DiagnosticLevel::Debug);
    h.push_frame(Frame::TestContract(TestContractFrame::new(id(1), sym("f"), vec![]))).unwrap();

    // a value: returned, and reported if asked for
    assert_eq!(h.native_outcome(&id(1), &sym("f"), Ok(Some(RawVal::U32(1))), false), Ok(RawVal::U32(1)));
    assert_eq!(h.events_len(), 0);
    assert_eq!(h.native_outcome(&id(1), &sym("f"), Ok(Some(RawVal::U32(1))), true), Ok(RawVal::U32(1)));
    assert_eq!(h.events_len(), 1);

    // no such function: one report
    let r = h.native_outcome(&id(1), &sym("f"), Ok(None), true);
    assert_eq!(
        r,
        Err(HostError { error: Error { type_: ScErrorType::Context, code: ScErrorCode::MissingValue } })
    );
    assert_eq!(h.events_len(), 2);

    // gave up with a reason: the reason and the failure are reported
    let r = h.native_outcome(&id(1), &sym("f"), Err(PanicPayload { message: Some(String::from("boom")) }), true);
    assert_eq!(r, Err(HostError { error: Error::unknown() }));
    assert_eq!(h.events_len(), 4);
    let reason = match h.event(2).unwrap() {
        InternalEvent::StructuredDebug(e) => e,
        _ => panic!("not a trace event"),
    };
    let data = match reason.data {
        RawVal::Object(o) => h.visit_obj(o).unwrap(),
        _ => panic!("no data object"),
    };
    let message = match data {
        HostObject::Vec(items) => match items[0] {
            RawVal::Object(m) => h.visit_obj(m).unwrap(),
            _ => panic!("no message object"),
        },
        _ => panic!("data is no sequence"),
    };
    assert_eq!(message, &HostObject::String(b"caught panic 'boom' from contract function".to_vec()));

    // gave up without a reason: only the failure is reported
    let r = h.native_outcome(&id(1), &sym("f"), Err(PanicPayload { message: None }), true);
    assert_eq!(r, Err(HostError { error: Error::unknown() }));
    assert_eq!(h.events_len(), 5);

    // an error was recorded in the frame: it is the failure, and the reason is not reported
    let recorded = Error { type_: ScErrorType::Storage, code: ScErrorCode::ExistingValue };
    h.set_captured_error(recorded);
    let r = h.native_outcome(&id(1), &sym("f"), Err(PanicPayload { message: Some(String::from("boom")) }), true);
    assert_eq!(r, Err(HostError { error: recorded }));
    assert_eq!(h.events_len(), 6);
}

#[test]
fn captured_error_goes_into_the_top_frame_only() {
    let mut h = new_host(1_000_000, false);
    let e = Error { type_: ScErrorType::Storage, code: ScErrorCode::ExistingValue };
    h.set_captured_error(e);
    assert_eq!(h.context_len(), 0);
    h.push_frame(Frame::TestContract(TestContractFrame::new(id(1), sym("f"), vec![]))).unwrap();
    h.push_frame(Frame::HostFunction(HostFunctionType::InvokeContract)).unwrap();
    h.set_captured_error(e);
    assert_eq!(h.context_frame(0).captured_error(), None);
    assert_eq!(h.context_frame(1).captured_error(), None);
    h.pop_frame(None).unwrap();
    h.set_captured_error(e);
    assert_eq!(h.context_frame(0).captured_error(), Some(e));
    assert_eq!(h.context_frame(0).contract_id(), Some(id(1)));
    assert_eq!(h.context_len(), 1);
}

#[test]
fn calls_are_traced_in_call_order() {
    let mut h = two_contracts(2, 1, ContractReentryMode::Prohibited);
    h.set_diagnostic_level(DiagnosticLevel::Debug);
    assert_eq!(hop(&mut h, 1), Ok(RawVal::U32(42)));
    // call 1, call 2, return 2, return 1
    assert_eq!(h.events_len(), 4);
    let mut first_topics = vec![];
    let mut attributed = vec![];
    for i in 0..4 {
        let e = match h.event(i).unwrap() {
            InternalEvent::StructuredDebug(e) => e,
            _ => panic!("not a trace event"),
        };
        let topics = match h.visit_obj(e.topics.to_object()).unwrap() {
            HostObject::Vec(t) => t.clone(),
            _ => panic!("topics are no sequence"),
        };
        first_topics.push(match topics[0] {
            RawVal::Symbol(s) => name(&s),
            _ => panic!("first topic is no symbol"),
        });
        attributed.push(match e.contract_id {
            None => None,
            Some(b) => match h.visit_obj(b.to_object()).unwrap() {
                HostObject::Bytes(b) => Some(b[0]),
                _ => panic!("contract id is no byte string"),
            },
        });
    }
    assert_eq!(first_topics, vec!["fn_call", "fn_call", "fn_return", "fn_return"]);
    // the call events are attributed to the caller, the return events to the callee
    assert_eq!(attributed, vec![None, Some(1), Some(2), Some(1)]);
}

#[test]
fn failed_call_keeps_only_the_report_of_the_call() {
    let mut h = two_contracts(2, 1, ContractReentryMode::Prohibited);
    h.set_diagnostic_level(DiagnosticLevel::Debug);
    let r = h.call_n_internal(&id(1), sym("code"), &[], ContractReentryMode::Prohibited, false);
    assert!(r.is_err());
    assert_eq!(h.events_len(), 1);
    assert_eq!(h.storage_map().len(), 0);
}

#[test]
fn call_n_takes_the_contract_from_a_byte_string() {
    let mut h = two_contracts(2, 1, ContractReentryMode::Prohibited);
    let target = h.add_host_object(HostObject::Bytes(vec![1u8; 32])).unwrap();
    let r = h.call_n(BytesObject { handle: target.handle }, sym("ret"), &[], ContractReentryMode::Prohibited);
    assert_eq!(r, Ok(RawVal::U32(42)));

    let short = h.add_host_object(HostObject::Bytes(vec![1u8; 31])).unwrap();
    let r = h.call_n(BytesObject { handle: short.handle }, sym("ret"), &[], ContractReentryMode::Prohibited);
    assert_eq!(
        r,
        Err(HostError { error: Error { type_: ScErrorType::Object, code: ScErrorCode::UnexpectedSize } })
    );

    let r = h.call_n(BytesObject { handle: 77 }, sym("ret"), &[], ContractReentryMode::Prohibited);
    assert_eq!(
        r,
        Err(HostError { error: Error { type_: ScErrorType::Object, code: ScErrorCode::MissingValue } })
    );

    let number = h.add_host_object(HostObject::U64(5)).unwrap();
    let r = h.call_n(BytesObject { handle: number.handle }, sym("ret"), &[], ContractReentryMode::Prohibited);
    assert_eq!(
        r,
        Err(HostError { error: Error { type_: ScErrorType::Object, code: ScErrorCode::UnexpectedType } })
    );
}

fn storage_error(code: ScErrorCode) -> HostError {
    HostError { error: Error { type_: ScErrorType::Storage, code } }
}

#[test]
fn call_through_storage_needs_an_executable() {
    let mut h = new_host(10_000_000, false);
    let r = h.call_n_internal(&id(5), sym("ret"), &[], ContractReentryMode::Prohibited, false);
    assert_eq!(r, Err(storage_error(ScErrorCode::MissingValue)));

    // an entry that holds something else
    h.storage_put(
        LedgerKey::ContractData { contract_id: id(5), key: ScVal::LedgerKeyContractExecutable },
        Some(LedgerEntry::ContractData {
            contract_id: id(5),
            key: ScVal::LedgerKeyContractExecutable,
            val: ScVal::U32(1),
        }),
    );
    let r = h.call_contract_fn(&id(5), &sym("ret"), &[]);
    assert_eq!(r, Err(storage_error(ScErrorCode::UnexpectedType)));

    // an executable whose code is not there
    h.storage_put(
        LedgerKey::ContractData { contract_id: id(5), key: ScVal::LedgerKeyContractExecutable },
        Some(LedgerEntry::ContractData {
            contract_id: id(5),
            key: ScVal::LedgerKeyContractExecutable,
            val: ScVal::ContractExecutable(ScContractExecutable::WasmRef(id(6))),
        }),
    );
    let r = h.call_contract_fn(&id(5), &sym("ret"), &[]);
    assert_eq!(r, Err(storage_error(ScErrorCode::MissingValue)));

    // code, but nothing to run it
    h.storage_put(
        LedgerKey::ContractCode { hash: id(6) },
        Some(LedgerEntry::ContractCode { hash: id(6), code: vec![0, 97, 115, 109] }),
    );
    let r = h.call_contract_fn(&id(5), &sym("ret"), &[]);
    assert_eq!(
        r,
        Err(HostError { error: Error { type_: ScErrorType::WasmVm, code: ScErrorCode::MissingValue } })
    );

    // with a virtual machine the code runs, in a frame of its own
    h.set_vm(Unit { own: id(5), next: id(5), mode: ContractReentryMode::Prohibited });
    assert_eq!(h.call_contract_fn(&id(5), &sym("ret"), &[]), Ok(RawVal::U32(42)));
    assert_eq!(h.call_contract_fn(&id(5), &sym("depth"), &[]), Ok(RawVal::U32(1)));
    assert_eq!(h.call_contract_fn(&id(5), &sym("me"), &[]), Ok(RawVal::Bool(true)));
    assert_eq!(
        h.call_contract_fn(&id(5), &sym("nothing"), &[]),
        Err(HostError { error: Error { type_: ScErrorType::Context, code: ScErrorCode::MissingValue } })
    );
    assert_eq!(h.context_len(), 0);
}

#[test]
fn call_through_storage_reaches_the_token_contract() {
    let mut h = new_host(10_000_000, false);
    h.storage_put(
        LedgerKey::ContractData { contract_id: id(7), key: ScVal::LedgerKeyContractExecutable },
        Some(LedgerEntry::ContractData {
            contract_id: id(7),
            key: ScVal::LedgerKeyContractExecutable,
            val: ScVal::ContractExecutable(ScContractExecutable::Token),
        }),
    );
    let r = h.call_n_internal(&id(7), sym("ret"), &[], ContractReentryMode::Prohibited, false);
    assert_eq!(
        r,
        Err(HostError { error: Error { type_: ScErrorType::Context, code: ScErrorCode::MissingValue } })
    );
    h.set_token(Unit { own: id(7), next: id(7), mode: ContractReentryMode::Prohibited });
    let r = h.call_n_internal(&id(7), sym("me"), &[], ContractReentryMode::Prohibited, false);
    assert_eq!(r, Ok(RawVal::Bool(true)));
    assert_eq!(h.context_len(), 0);
}

#[test]
fn registered_contract_takes_precedence_over_storage() {
    let mut h = two_contracts(2, 1, ContractReentryMode::Prohibited);
    h.storage_put(
        LedgerKey::ContractData { contract_id: id(1), key: ScVal::LedgerKeyContractExecutable },
        Some(LedgerEntry::ContractData {
            contract_id: id(1),
            key: ScVal::LedgerKeyContractExecutable,
            val: ScVal::ContractExecutable(ScContractExecutable::Token),
        }),
    );
    let r = h.call_n_internal(&id(1), sym("ret"), &[], ContractReentryMode::Prohibited, false);
    assert_eq!(r, Ok(RawVal::U32(42)));
    assert!(h.registered_contract(&id(1)).is_some());
    assert!(h.registered_contract(&id(3)).is_none());
}

#[test]
fn invoker_is_the_contract_below() {
    // contract 2 runs `invoker`, which asks whether its invoker is its `next`, contract 1
    let mut h = two_contracts(2, 1, ContractReentryMode::Prohibited);
    h.push_frame(Frame::TestContract(TestContractFrame::new(id(1), sym("f"), vec![]))).unwrap();
    let r = h.call_n_internal(&id(2), sym("invoker"), &[], ContractReentryMode::Prohibited, false);
    assert_eq!(r, Ok(RawVal::Bool(true)));
}

fn invoke(contract: u8, func: &str, args: Vec<ScVal>) -> HostFunctionArgs {
    let mut all = vec![ScVal::Bytes(vec![contract; 32]), ScVal::Symbol(sym(func))];
    all.extend(args);
    HostFunctionArgs::InvokeContract(all)
}

#[test]
fn invoke_function_runs_in_a_frame_of_the_host() {
    let mut h = two_contracts(2, 1, ContractReentryMode::Prohibited);
    assert_eq!(h.invoke_function_raw(invoke(1, "depth", vec![])), Ok(RawVal::U32(2)));
    assert_eq!(h.invoke_function_raw(invoke(1, "count", vec![ScVal::U32(1), ScVal::Bool(true)])), Ok(RawVal::U32(2)));
    assert_eq!(h.invoke_function_raw(invoke(1, "first", vec![ScVal::I32(-9)])), Ok(RawVal::I32(-9)));
    assert_eq!(h.context_len(), 0);
    // an operation invoked from outside is no internal call
    assert_eq!(h.invoke_function_raw(invoke(1, "__reserved", vec![])), Err(invalid_action()));
}

#[test]
fn invoke_function_rolls_back_on_failure() {
    let mut h = two_contracts(2, 1, ContractReentryMode::Prohibited);
    assert_eq!(h.invoke_function_raw(invoke(1, "put", vec![])), Ok(RawVal::Void));
    assert_eq!(h.storage_map().len(), 1);
    let objects = h.objects_len();
    let r = h.invoke_function_raw(invoke(1, "code", vec![ScVal::U64(1)]));
    assert_eq!(
        r,
        Err(HostError { error: Error { type_: ScErrorType::Contract, code: ScErrorCode::ArithDomain } })
    );
    assert_eq!(h.storage_map().len(), 1);
    // the object store is not rolled back
    assert_eq!(h.objects_len(), objects + 2);
}

#[test]
fn invoke_function_wants_a_contract_and_a_function() {
    let unexpected_size =
        HostError { error: Error { type_: ScErrorType::Context, code: ScErrorCode::UnexpectedSize } };
    let mut h = two_contracts(2, 1, ContractReentryMode::Prohibited);
    h.set_diagnostic_level(DiagnosticLevel::Debug);
    let r = h.invoke_function_raw(HostFunctionArgs::InvokeContract(vec![ScVal::Bytes(vec![1; 32])]));
    assert_eq!(r, Err(unexpected_size));
    assert_eq!(h.budget().consumed, 0);
    assert_eq!(h.events_len(), 1);
    // the report holds the number of arguments
    let e = match h.event(0).unwrap() {
        InternalEvent::StructuredDebug(e) => e,
        _ => panic!("not a trace event"),
    };
    let data = match e.data {
        RawVal::Object(o) => h.visit_obj(o).unwrap(),
        _ => panic!("no data object"),
    };
    match data {
        HostObject::Vec(items) => assert_eq!(items[1], RawVal::U32(1)),
        _ => panic!("data is no sequence"),
    }
    let r = h.invoke_function_raw(HostFunctionArgs::InvokeContract(vec![
        ScVal::Symbol(sym("ret")),
        ScVal::Bytes(vec![1; 32]),
    ]));
    assert_eq!(r, Err(unexpected_size));
    let r = h.invoke_function_raw(HostFunctionArgs::InvokeContract(vec![]));
    assert_eq!(r, Err(unexpected_size));
}

#[test]
fn uploaded_code_and_created_contract_can_be_called() {
    let mut h = new_host(100_000_000, false);
    h.set_vm(Unit { own: id(0), next: id(0), mode: ContractReentryMode::Prohibited });
    let code = vec![0u8, 97, 115, 109, 1, 0, 0, 0];
    let res = h
        .invoke_functions(vec![HostFunction {
            args: HostFunctionArgs::UploadContractWasm(UploadContractWasmArgs { code: code.clone() }),
            auth: vec![],
        }])
        .unwrap();
    let wasm_hash = match &res[0] {
        ScVal::Bytes(b) => Hash256::from_slice(b).unwrap(),
        _ => panic!("no digest"),
    };
    assert_eq!(
        h.storage_map().get(&LedgerKey::ContractCode { hash: wasm_hash }),
        Some(&LedgerEntry::ContractCode { hash: wasm_hash, code })
    );

    let res = h
        .invoke_functions(vec![HostFunction {
            args: HostFunctionArgs::CreateContract(CreateContractArgs {
                salt: vec![7; 32],
                executable: ScContractExecutable::WasmRef(wasm_hash),
            }),
            auth: vec![],
        }])
        .unwrap();
    let contract = match &res[0] {
        ScVal::Bytes(b) => b.clone(),
        _ => panic!("no contract id"),
    };
    assert_eq!(contract.len(), 32);

    let res = h
        .invoke_functions(vec![
            HostFunction {
                args: HostFunctionArgs::InvokeContract(vec![
                    ScVal::Bytes(contract.clone()),
                    ScVal::Symbol(sym("depth")),
                ]),
                auth: vec![],
            },
            HostFunction {
                args: HostFunctionArgs::InvokeContract(vec![
                    ScVal::Bytes(contract.clone()),
                    ScVal::Symbol(sym("count")),
                    ScVal::U32(1),
                    ScVal::Vec(vec![ScVal::U64(2), ScVal::Bytes(vec![3])]),
                ]),
                auth: vec![],
            },
        ])
        .unwrap();
    assert_eq!(res, vec![ScVal::U32(2), ScVal::U32(2)]);
    assert_eq!(h.context_len(), 0);

    // creating the same contract again is refused
    let r = h.invoke_functions(vec![HostFunction {
        args: HostFunctionArgs::CreateContract(CreateContractArgs {
            salt: vec![7; 32],
            executable: ScContractExecutable::Token,
        }),
        auth: vec![],
    }]);
    assert_eq!(r, Err(storage_error(ScErrorCode::ExistingValue)));

    // and so is a contract for code that was never uploaded
    let r = h.invoke_functions(vec![HostFunction {
        args: HostFunctionArgs::CreateContract(CreateContractArgs {
            salt: vec![8; 32],
            executable: ScContractExecutable::WasmRef(id(99)),
        }),
        auth: vec![],
    }]);
    assert_eq!(r, Err(storage_error(ScErrorCode::MissingValue)));
}

#[test]
fn invoke_functions_stops_at_the_first_failure() {
    let mut h = two_contracts(2, 1, ContractReentryMode::Prohibited);
    let r = h.invoke_functions(vec![
        HostFunction { args: invoke(1, "put", vec![]), auth: vec![] },
        HostFunction { args: invoke(1, "code", vec![]), auth: vec![] },
        HostFunction { args: invoke(2, "put", vec![]), auth: vec![] },
    ]);
    assert_eq!(
        r,
        Err(HostError { error: Error { type_: ScErrorType::Contract, code: ScErrorCode::ArithDomain } })
    );
    // the first operation committed, the third never ran
    assert_eq!(h.storage_map().len(), 1);
    assert_eq!(h.invoke_functions(vec![]), Ok(vec![]));
}

#[test]
fn invoke_functions_installs_the_authorisations_of_each_operation() {
    let mut h = two_contracts(2, 1, ContractReentryMode::Prohibited);
    let auth = vec![ContractAuth { contract_id: id(1), function: sym("ret") }];
    h.invoke_functions(vec![HostFunction { args: invoke(1, "ret", vec![]), auth }]).unwrap();
    assert_eq!(h.authorization_manager().entries_len(), 1);
    assert_eq!(
        h.authorization_manager().entry(0),
        Some(AuthorizedInvocation { contract_id: id(1), function: sym("ret"), exhausted: false })
    );

    // while recording, the authorisations that come with an operation are ignored
    let mut h = new_host(10_000_000, true);
    h.register_test_contract(id(1), Unit { own: id(1), next: id(1), mode: ContractReentryMode::Prohibited });
    let auth = vec![ContractAuth { contract_id: id(1), function: sym("ret") }];
    h.invoke_functions(vec![HostFunction { args: invoke(1, "ret", vec![]), auth }]).unwrap();
    assert_eq!(h.authorization_manager().entries_len(), 0);
    assert!(h.authorization_manager().has_emulated_authentication());
}

#[test]
fn set_without_functions_knows_no_function() {
    let mut h: Host<NoFunctions> = Host::with_storage_and_budget(
        Storage { map: StorageMap::new() },
        Budget::new(1_000_000),
        false,
    );
    h.register_test_contract(id(1), NoFunctions);
    let r = h.call_n_internal(&id(1), sym("anything"), &[], ContractReentryMode::Prohibited, false);
    assert_eq!(
        r,
        Err(HostError { error: Error { type_: ScErrorType::Context, code: ScErrorCode::MissingValue } })
    );
    assert_eq!(h.context_len(), 0);
    assert_eq!(h.budget().consumed, 4050 + 56);
}

#[test]
fn object_handles_keep_their_content() {
    let mut h = two_contracts(2, 1, ContractReentryMode::Prohibited);
    let first = h.add_host_object(HostObject::Bytes(vec![1, 2, 3])).unwrap();
    assert_eq!(first, Object { kind: ObjectKind::Bytes, handle: 0 });
    h.set_diagnostic_level(DiagnosticLevel::Debug);
    let _ = hop(&mut h, 1);
    let _ = h.call_n_internal(&id(1), sym("code"), &[], ContractReentryMode::Prohibited, false);
    let _ = h.invoke_function_raw(invoke(1, "count", vec![ScVal::U64(4)]));
    let second = h.add_host_object(HostObject::Bytes(vec![9])).unwrap();
    assert!(second.handle > first.handle);
    assert_eq!(h.visit_obj(first), Ok(&HostObject::Bytes(vec![1, 2, 3])));
    assert_eq!(h.visit_obj(second), Ok(&HostObject::Bytes(vec![9])));
}

#[test]
fn return_of_a_call_through_storage_is_attributed_to_the_caller() {
    let mut h = new_host(10_000_000, false);
    h.storage_put(
        LedgerKey::ContractData { contract_id: id(7), key: ScVal::LedgerKeyContractExecutable },
        Some(LedgerEntry::ContractData {
            contract_id: id(7),
            key: ScVal::LedgerKeyContractExecutable,
            val: ScVal::ContractExecutable(ScContractExecutable::Token),
        }),
    );
    h.set_token(Unit { own: id(7), next: id(7), mode: ContractReentryMode::Prohibited });
    h.set_diagnostic_level(DiagnosticLevel::Debug);

    // from outside any contract: the frame of the call is gone when the return is
    // reported, so the report has no contract
    let r = h.call_n_internal(&id(7), sym("ret"), &[], ContractReentryMode::Prohibited, false);
    assert_eq!(r, Ok(RawVal::U32(42)));
    assert_eq!(h.events_len(), 2);
    for i in 0..2 {
        match h.event(i).unwrap() {
            InternalEvent::StructuredDebug(e) => assert_eq!(e.contract_id, None),
            _ => panic!("not a trace event"),
        }
    }

    // from a contract: the report is attributed to that contract
    h.push_frame(Frame::TestContract(TestContractFrame::new(id(3), sym("f"), vec![]))).unwrap();
    let r = h.call_n_internal(&id(7), sym("ret"), &[], ContractReentryMode::Prohibited, false);
    assert_eq!(r, Ok(RawVal::U32(42)));
    assert_eq!(h.events_len(), 4);
    for i in 2..4 {
        let e = match h.event(i).unwrap() {
            InternalEvent::StructuredDebug(e) => e,
            _ => panic!("not a trace event"),
        };
        match h.visit_obj(e.contract_id.unwrap().to_object()).unwrap() {
            HostObject::Bytes(b) => assert_eq!(b, &vec![3u8; 32]),
            _ => panic!("contract id is no byte string"),
        }
    }
}

#[test]
fn call_that_fails_while_its_frame_is_popped_rolls_back() {
    // guard 4050, manager 56, and one unit too little for the emulation (883)
    let mut h = new_host(4050 + 56 + 882, true);
    h.register_test_contract(id(1), Unit { own: id(1), next: id(2), mode: ContractReentryMode::Prohibited });
    let r = h.call_n_internal(&id(1), sym("put"), &[], ContractReentryMode::Prohibited, false);
    assert_eq!(
        r,
        Err(HostError { error: Error { type_: ScErrorType::Budget, code: ScErrorCode::ExceededLimit } })
    );
    assert_eq!(h.context_len(), 0);
    assert_eq!(h.storage_map().len(), 0);
    assert_eq!(h.events_len(), 0);

    // with one unit more the call goes through and its write stays
    let mut h = new_host(4050 + 56 + 883, true);
    h.register_test_contract(id(1), Unit { own: id(1), next: id(2), mode: ContractReentryMode::Prohibited });
    let r = h.call_n_internal(&id(1), sym("put"), &[], ContractReentryMode::Prohibited, false);
    assert_eq!(r, Ok(RawVal::Void));
    assert_eq!(h.storage_map().len(), 1);
}

#[test]
fn failure_of_a_contract_outlives_a_failure_of_the_pop() {
    // the contract fails with its own code; that the emulation cannot be paid for
    // does not change the error of the call
    let mut h = new_host(4050 + 56 + 882, true);
    h.register_test_contract(id(1), Unit { own: id(1), next: id(2), mode: ContractReentryMode::Prohibited });
    let r = h.call_n_internal(&id(1), sym("code"), &[], ContractReentryMode::Prohibited, false);
    assert_eq!(
        r,
        Err(HostError { error: Error { type_: ScErrorType::Contract, code: ScErrorCode::ArithDomain } })
    );
    assert_eq!(h.context_len(), 0);
    assert_eq!(h.storage_map().len(), 0);
}
