use soroban_env_host::budget::Budget;
use soroban_env_host::events::diagnostic::{
    error_symbol, fn_call_symbol, fn_return_symbol, DiagnosticLevel,
};
use soroban_env_host::events::{InternalContractEvent, InternalEvent, InternalEventsBuffer};
use soroban_env_host::host::frame::{Frame, NoFunctions, TestContractFrame};
use soroban_env_host::host::Host;
use soroban_env_host::host_object::HostObject;
use soroban_env_host::storage::{Storage, StorageMap};
use soroban_env_host::val::{
    BytesObject, Error, Hash256, HostError, Object, ObjectKind, RawVal, ScErrorCode, ScErrorType,
    Symbol, VecObject,
};
use soroban_env_host::xdr::{ContractEventType, HostFunctionType};

fn new_host(limit: u64) -> Host<NoFunctions> {
    Host::with_storage_and_budget(Storage { map: StorageMap::new() }, Budget::new(limit), false)
}

fn id(n: u8) -> Hash256 {
    Hash256([n; 32])
}

fn sym(s: &str) -> Symbol {
    Symbol::try_from_str(s).unwrap()
}

fn trace_event(h: &Host<NoFunctions>, i: usize) -> InternalContractEvent {
    match h.event(i).unwrap() {
        InternalEvent::StructuredDebug(e) => e,
        _ => panic!("not a trace event"),
    }
}

fn vec_at(h: &Host<NoFunctions>, handle: u32) -> Vec<RawVal> {
    match h.visit_obj(Object { kind: ObjectKind::Vec, handle }).unwrap() {
        HostObject::Vec(v) => v.clone(),
        _ => panic!("not a sequence"),
    }
}

fn bytes_at(h: &Host<NoFunctions>, handle: u32) -> Vec<u8> {
    match h.visit_obj(Object { kind: ObjectKind::Bytes, handle }).unwrap() {
        HostObject::Bytes(v) => v.clone(),
        _ => panic!("not a byte string"),
    }
}

#[test]
fn diagnostic_level_is_off_by_default_and_can_be_toggled() {
    let mut h = new_host(1000);
    assert_eq!(DiagnosticLevel::default(), DiagnosticLevel::Off);
    assert_eq!(h.diagnostic_level(), DiagnosticLevel::Off);
    assert!(!h.is_debug());
    h.set_diagnostic_level(DiagnosticLevel::Debug);
    assert!(h.is_debug());
    h.set_diagnostic_level(DiagnosticLevel::Off);
    assert!(!h.is_debug());
}

#[test]
fn emitters_do_nothing_while_diagnostics_are_off() {
    let mut h = new_host(1000);
    h.push_frame(Frame::TestContract(TestContractFrame::new(id(1), sym("f"), vec![]))).unwrap();
    let budget = h.budget();
    let e = Error { type_: ScErrorType::Value, code: ScErrorCode::InvalidInput };
    assert_eq!(h.err_diagnostics(e, "message", &[RawVal::U32(1)]), Ok(()));
    assert_eq!(h.fn_call_diagnostics(&id(2), &sym("g"), &[RawVal::U32(1)]), Ok(()));
    assert_eq!(h.fn_return_diagnostics(&id(2), &sym("g"), &RawVal::U32(1)), Ok(()));
    assert_eq!(h.error(e, "message", &[]), HostError { error: e });
    assert_eq!(
        h.err(ScErrorType::Value, ScErrorCode::InvalidInput, "message", &[]),
        HostError { error: e }
    );
    assert_eq!(h.events_len(), 0);
    assert_eq!(h.objects_len(), 0);
    assert_eq!(h.budget(), budget);
}

#[test]
fn error_event_has_the_documented_shape() {
    let mut h = new_host(1000);
    h.push_frame(Frame::TestContract(TestContractFrame::new(id(1), sym("f"), vec![]))).unwrap();
    h.set_diagnostic_level(DiagnosticLevel::Debug);
    let budget = h.budget();
    let e = Error { type_: ScErrorType::Value, code: ScErrorCode::InvalidInput };
    assert_eq!(h.err_diagnostics(e, "it broke", &[RawVal::U32(1), RawVal::Bool(false)]), Ok(()));
    assert_eq!(h.events_len(), 1);
    assert_eq!(h.objects_len(), 4);
    assert_eq!(h.budget(), budget);

    let ev = trace_event(&h, 0);
    assert_eq!(ev.type_, ContractEventType::Diagnostic);
    assert_eq!(ev.contract_id, Some(BytesObject { handle: 0 }));
    assert_eq!(bytes_at(&h, 0), vec![1u8; 32]);
    assert_eq!(ev.topics, VecObject { handle: 1 });
    assert_eq!(vec_at(&h, 1), vec![RawVal::Symbol(sym("error")), RawVal::Error(e)]);
    assert_eq!(ev.data, RawVal::Object(Object { kind: ObjectKind::Vec, handle: 3 }));
    assert_eq!(
        vec_at(&h, 3),
        vec![
            RawVal::Object(Object { kind: ObjectKind::String, handle: 2 }),
            RawVal::U32(1),
            RawVal::Bool(false)
        ]
    );
    assert_eq!(
        h.visit_obj(Object { kind: ObjectKind::String, handle: 2 }),
        Ok(&HostObject::String(b"it broke".to_vec()))
    );
}

#[test]
fn error_event_outside_any_contract_has_no_contract() {
    let mut h = new_host(1000);
    h.set_diagnostic_level(DiagnosticLevel::Debug);
    let e = Error { type_: ScErrorType::Value, code: ScErrorCode::InvalidInput };
    assert_eq!(h.error(e, "m", &[]), HostError { error: e });
    assert_eq!(h.events_len(), 1);
    assert_eq!(h.objects_len(), 3);
    assert_eq!(trace_event(&h, 0).contract_id, None);

    h.push_frame(Frame::HostFunction(HostFunctionType::InvokeContract)).unwrap();
    assert_eq!(h.error(e, "m", &[]), HostError { error: e });
    assert_eq!(h.events_len(), 2);
    assert_eq!(trace_event(&h, 1).contract_id, None);
}

#[test]
fn call_event_has_the_documented_shape() {
    let mut h = new_host(1000);
    h.push_frame(Frame::TestContract(TestContractFrame::new(id(1), sym("f"), vec![]))).unwrap();
    h.set_diagnostic_level(DiagnosticLevel::Debug);
    let budget = h.budget();
    assert_eq!(h.fn_call_diagnostics(&id(2), &sym("g"), &[RawVal::I32(5)]), Ok(()));
    assert_eq!(h.events_len(), 1);
    assert_eq!(h.objects_len(), 4);
    assert_eq!(h.budget(), budget);

    let ev = trace_event(&h, 0);
    assert_eq!(ev.type_, ContractEventType::Diagnostic);
    // attributed to the caller
    assert_eq!(bytes_at(&h, ev.contract_id.unwrap().handle), vec![1u8; 32]);
    let topics = vec_at(&h, ev.topics.handle);
    assert_eq!(topics.len(), 3);
    assert_eq!(topics[0], RawVal::Symbol(sym("fn_call")));
    match topics[1] {
        RawVal::Object(o) => assert_eq!(bytes_at(&h, o.handle), vec![2u8; 32]),
        _ => panic!("called contract is no object"),
    }
    assert_eq!(topics[2], RawVal::Symbol(sym("g")));
    match ev.data {
        RawVal::Object(o) => assert_eq!(vec_at(&h, o.handle), vec![RawVal::I32(5)]),
        _ => panic!("data is no object"),
    }
}

#[test]
fn return_event_has_the_documented_shape() {
    let mut h = new_host(1000);
    h.push_frame(Frame::TestContract(TestContractFrame::new(id(1), sym("f"), vec![]))).unwrap();
    h.set_diagnostic_level(DiagnosticLevel::Debug);
    let budget = h.budget();
    assert_eq!(h.fn_return_diagnostics(&id(2), &sym("g"), &RawVal::I32(-5)), Ok(()));
    assert_eq!(h.events_len(), 1);
    assert_eq!(h.objects_len(), 2);
    assert_eq!(h.budget(), budget);

    let ev = trace_event(&h, 0);
    assert_eq!(ev.type_, ContractEventType::Diagnostic);
    // attributed to the contract of the top frame, as every report is
    assert_eq!(bytes_at(&h, ev.contract_id.unwrap().handle), vec![1u8; 32]);
    assert_eq!(
        vec_at(&h, ev.topics.handle),
        vec![RawVal::Symbol(sym("fn_return")), RawVal::Symbol(sym("g"))]
    );
    assert_eq!(ev.data, RawVal::I32(-5));
}

#[test]
fn return_event_outside_any_contract_has_no_contract() {
    let mut h = new_host(1000);
    h.set_diagnostic_level(DiagnosticLevel::Debug);
    assert_eq!(h.fn_return_diagnostics(&id(2), &sym("g"), &RawVal::I32(-5)), Ok(()));
    assert_eq!(h.events_len(), 1);
    assert_eq!(h.objects_len(), 1);
    let ev = trace_event(&h, 0);
    assert_eq!(ev.contract_id, None);
    assert_eq!(
        vec_at(&h, ev.topics.handle),
        vec![RawVal::Symbol(sym("fn_return")), RawVal::Symbol(sym("g"))]
    );
    assert_eq!(ev.data, RawVal::I32(-5));

    h.push_frame(Frame::HostFunction(HostFunctionType::InvokeContract)).unwrap();
    assert_eq!(h.fn_return_diagnostics(&id(2), &sym("g"), &RawVal::Void), Ok(()));
    assert_eq!(trace_event(&h, 1).contract_id, None);
}

#[test]
fn diagnostics_are_free_even_without_budget() {
    let mut h = new_host(0);
    h.set_diagnostic_level(DiagnosticLevel::Debug);
    assert_eq!(h.fn_return_diagnostics(&id(2), &sym("g"), &RawVal::Void), Ok(()));
    assert_eq!(h.fn_call_diagnostics(&id(2), &sym("g"), &[]), Ok(()));
    assert_eq!(h.events_len(), 2);
    assert_eq!(h.budget().consumed, 0);
    assert!(h.budget().enabled);
    // while an ordinary object is charged
    assert_eq!(
        h.add_host_object(HostObject::U64(1)),
        Err(HostError { error: Error { type_: ScErrorType::Budget, code: ScErrorCode::ExceededLimit } })
    );
}

#[test]
fn topic_symbols_are_spelled_out() {
    assert_eq!(error_symbol(), sym("error"));
    assert_eq!(fn_call_symbol(), sym("fn_call"));
    assert_eq!(fn_return_symbol(), sym("fn_return"));
    assert_eq!(fn_return_symbol().to_bytes(), b"fn_return".to_vec());
}

#[test]
fn hash_to_bytesobj_stores_and_charges() {
    let mut h = new_host(10_000);
    assert_eq!(h.hash_to_bytesobj(&id(3)), Ok(BytesObject { handle: 0 }));
    assert_eq!(bytes_at(&h, 0), vec![3u8; 32]);
    assert_eq!(h.budget().consumed, 883 + 1);
    assert!(h.has_object_room(1));
    assert!(h.has_object_room(0xffff_ffff));
    assert!(!h.has_object_room(0x1_0000_0000));
}

#[test]
fn system_debug_event_is_appended() {
    let mut h = new_host(10_000);
    let r = h.record_system_debug_contract_event(
        ContractEventType::System,
        None,
        VecObject { handle: 9 },
        RawVal::Void,
    );
    assert_eq!(r, Ok(()));
    assert_eq!(
        h.event(0),
        Some(InternalEvent::StructuredDebug(InternalContractEvent {
            type_: ContractEventType::System,
            contract_id: None,
            topics: VecObject { handle: 9 },
            data: RawVal::Void
        }))
    );
    assert_eq!(h.event(1), None);
}

fn topics(h: &mut Host<NoFunctions>, items: Vec<RawVal>) -> VecObject {
    VecObject { handle: h.add_host_object(HostObject::Vec(items)).unwrap().handle }
}

#[test]
fn system_event_is_recorded_for_the_current_contract() {
    let mut h = new_host(1_000_000);
    h.push_frame(Frame::TestContract(TestContractFrame::new(id(1), sym("f"), vec![]))).unwrap();
    let t = topics(&mut h, vec![RawVal::Symbol(sym("transfer")), RawVal::U32(1)]);
    assert_eq!(h.system_event(t, RawVal::I32(7)), Ok(()));
    assert_eq!(h.events_len(), 1);
    let ev = match h.event(0).unwrap() {
        InternalEvent::Contract(e) => e,
        _ => panic!("not a contract event"),
    };
    assert_eq!(ev.type_, ContractEventType::System);
    assert_eq!(ev.topics, t);
    assert_eq!(ev.data, RawVal::I32(7));
    assert_eq!(bytes_at(&h, ev.contract_id.unwrap().handle), vec![1u8; 32]);

    // in a frame of the host the event has no contract
    h.push_frame(Frame::HostFunction(HostFunctionType::CreateContract)).unwrap();
    assert_eq!(h.system_event(t, RawVal::Void), Ok(()));
    match h.event(1).unwrap() {
        InternalEvent::Contract(e) => assert_eq!(e.contract_id, None),
        _ => panic!("not a contract event"),
    }
}

#[test]
fn system_event_needs_a_frame() {
    let mut h = new_host(1_000_000);
    let t = topics(&mut h, vec![RawVal::U32(1)]);
    assert_eq!(
        h.system_event(t, RawVal::Void),
        Err(HostError { error: Error { type_: ScErrorType::Context, code: ScErrorCode::InvalidAction } })
    );
    assert_eq!(h.events_len(), 0);
}

#[test]
fn system_event_checks_its_topics() {
    let invalid = HostError { error: Error { type_: ScErrorType::Events, code: ScErrorCode::InvalidInput } };
    let mut h = new_host(1_000_000);
    h.push_frame(Frame::TestContract(TestContractFrame::new(id(1), sym("f"), vec![]))).unwrap();

    // four topics are fine, five are too many
    let four = topics(&mut h, vec![RawVal::U32(1); 4]);
    assert_eq!(h.validate_contract_event_topics(four), Ok(()));
    let five = topics(&mut h, vec![RawVal::U32(1); 5]);
    assert_eq!(
        h.system_event(five, RawVal::Void),
        Err(HostError { error: Error { type_: ScErrorType::Events, code: ScErrorCode::ExceededLimit } })
    );

    // a sequence or a mapping is no topic
    let nested = topics(&mut h, vec![RawVal::U32(1), RawVal::Object(four.to_object())]);
    assert_eq!(h.system_event(nested, RawVal::Void), Err(invalid));
    let map = h.add_host_object(HostObject::OrdMap(vec![])).unwrap();
    let with_map = topics(&mut h, vec![RawVal::Object(map)]);
    assert_eq!(h.system_event(with_map, RawVal::Void), Err(invalid));

    // a byte string of 32 bytes is a topic, one of 33 is not
    let b32 = h.add_host_object(HostObject::Bytes(vec![0; 32])).unwrap();
    let b33 = h.add_host_object(HostObject::Bytes(vec![0; 33])).unwrap();
    let ok = topics(&mut h, vec![RawVal::Object(b32)]);
    assert_eq!(h.validate_contract_event_topics(ok), Ok(()));
    let long = topics(&mut h, vec![RawVal::Object(b32), RawVal::Object(b33)]);
    assert_eq!(h.system_event(long, RawVal::Void), Err(invalid));
    assert_eq!(h.event_topic_from_rawval(RawVal::Object(b33)), Err(invalid));
    assert_eq!(h.event_topic_from_rawval(RawVal::Object(b32)), Ok(()));

    // other objects are topics
    let n = h.add_host_object(HostObject::U64(1)).unwrap();
    assert_eq!(h.event_topic_from_rawval(RawVal::Object(n)), Ok(()));

    // the topics must be a sequence that exists
    assert_eq!(
        h.system_event(VecObject { handle: 1000 }, RawVal::Void),
        Err(HostError { error: Error { type_: ScErrorType::Object, code: ScErrorCode::MissingValue } })
    );
    assert_eq!(
        h.system_event(VecObject { handle: b32.handle }, RawVal::Void),
        Err(HostError { error: Error { type_: ScErrorType::Object, code: ScErrorCode::UnexpectedType } })
    );
    assert_eq!(h.events_len(), 0);
}

#[test]
fn event_log_can_be_cut_back() {
    let mut log = InternalEventsBuffer::new();
    let ev = |n: u32| {
        InternalEvent::Contract(InternalContractEvent {
            type_: ContractEventType::Contract,
            contract_id: None,
            topics: VecObject { handle: n },
            data: RawVal::U32(n),
        })
    };
    log.record(ev(0));
    log.record(ev(1));
    log.record(ev(2));
    assert_eq!(log.len(), 3);
    log.rollback(5);
    assert_eq!(log.len(), 3);
    log.rollback(1);
    assert_eq!(log.len(), 1);
    assert_eq!(log.vec, vec![ev(0)]);
    log.rollback(0);
    assert_eq!(log.len(), 0);
}
