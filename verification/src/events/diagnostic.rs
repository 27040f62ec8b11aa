//! Trace events for debugging: what went wrong, which function was called with
//! what, and what it returned. They are recorded only while diagnostics are on, and
//! recording them is never charged.
use crate::events::{InternalContractEvent, InternalEvent};
use crate::host::{Host, HostView};
use crate::host_object::{object_limit_exceeded, HostObject, HostObjectView};
use crate::host_object::rawvals_clone;
use crate::val::{
    BytesObject, Error, Hash256, HostError, Object, ObjectKind, RawVal, ScErrorCode, ScErrorType,
    Symbol, VecObject,
};
use crate::xdr::ContractEventType;
use vstd::prelude::*;
use vstd::string::*;

verus! {

/// Whether trace events are recorded.
#[derive(Clone, Copy, Debug, PartialEq, Eq, Structural)]
pub enum DiagnosticLevel {
    Off,
    Debug,
}

impl Default for DiagnosticLevel {
    fn default() -> (r: DiagnosticLevel)
        ensures
            r == DiagnosticLevel::Off,
    {
        DiagnosticLevel::Off
    }
}

/// The first topic of an event that reports an error: the name `error`.
pub open spec fn spec_error_symbol() -> Symbol {
    Symbol { len: 5, chars: [
        101, 114, 114, 111, 114, 0, 0, 0, 0, 0, 0, 0, 0, 0, 0, 0, 0, 0, 0, 0, 0, 0, 0, 0, 0, 0,
        0, 0, 0, 0, 0, 0,
    ] }
}

/// The first topic of an event that reports an error: the name `error`.
pub fn error_symbol() -> (r: Symbol)
    ensures
        r == spec_error_symbol(),
{
    Symbol { len: 5, chars: [
        101, 114, 114, 111, 114, 0, 0, 0, 0, 0, 0, 0, 0, 0, 0, 0, 0, 0, 0, 0, 0, 0, 0, 0, 0, 0,
        0, 0, 0, 0, 0, 0,
    ] }
}

/// The first topic of an event that reports a call: the name `fn_call`.
pub open spec fn spec_fn_call_symbol() -> Symbol {
    Symbol { len: 7, chars: [
        102, 110, 95, 99, 97, 108, 108, 0, 0, 0, 0, 0, 0, 0, 0, 0, 0, 0, 0, 0, 0, 0, 0, 0, 0,
        0, 0, 0, 0, 0, 0, 0,
    ] }
}

/// The first topic of an event that reports a call: the name `fn_call`.
pub fn fn_call_symbol() -> (r: Symbol)
    ensures
        r == spec_fn_call_symbol(),
{
    Symbol { len: 7, chars: [
        102, 110, 95, 99, 97, 108, 108, 0, 0, 0, 0, 0, 0, 0, 0, 0, 0, 0, 0, 0, 0, 0, 0, 0, 0,
        0, 0, 0, 0, 0, 0, 0,
    ] }
}

/// The first topic of an event that reports a return: the name `fn_return`.
pub open spec fn spec_fn_return_symbol() -> Symbol {
    Symbol { len: 9, chars: [
        102, 110, 95, 114, 101, 116, 117, 114, 110, 0, 0, 0, 0, 0, 0, 0, 0, 0, 0, 0, 0, 0, 0,
        0, 0, 0, 0, 0, 0, 0, 0, 0,
    ] }
}

/// The first topic of an event that reports a return: the name `fn_return`.
pub fn fn_return_symbol() -> (r: Symbol)
    ensures
        r == spec_fn_return_symbol(),
{
    Symbol { len: 9, chars: [
        102, 110, 95, 114, 101, 116, 117, 114, 110, 0, 0, 0, 0, 0, 0, 0, 0, 0, 0, 0, 0, 0, 0,
        0, 0, 0, 0, 0, 0, 0, 0, 0,
    ] }
}

/// The three topic names are what they are called.
pub proof fn lemma_topic_names()
    ensures
        spec_error_symbol()@ == seq![101u8, 114u8, 114u8, 111u8, 114u8],
        spec_fn_call_symbol()@ == seq![102u8, 110u8, 95u8, 99u8, 97u8, 108u8, 108u8],
        spec_fn_return_symbol()@ == seq![102u8, 110u8, 95u8, 114u8, 101u8, 116u8, 117u8, 114u8, 110u8],
{
}

/// A trace event.
pub open spec fn diagnostic_event(
    contract_id: Option<BytesObject>,
    topics: VecObject,
    data: RawVal,
) -> InternalEvent {
    InternalEvent::StructuredDebug(
        InternalContractEvent { type_: ContractEventType::Diagnostic, contract_id, topics, data },
    )
}

impl<C> HostView<C> {
    /// The contract that runs in the top frame. There is none when the stack is empty
    /// or when the top frame is one of the host itself.
    pub open spec fn current_contract_id(self) -> Option<Hash256> {
        if self.frames.len() == 0 {
            None
        } else {
            self.frames.last().contract_id()
        }
    }

    /// The number of objects that an event attributed to the current contract needs for
    /// the identifier of that contract: one if there is a current contract.
    pub open spec fn current_contract_objects(self) -> nat {
        if self.current_contract_id() is Some {
            1
        } else {
            0
        }
    }

    /// The host with `obj` stored, free of charge.
    pub open spec fn with_object(self, obj: HostObjectView) -> HostView<C> {
        HostView { objects: self.objects.push(obj), ..self }
    }

    /// The host with `event` appended to the log.
    pub open spec fn with_event(self, event: InternalEvent) -> HostView<C> {
        HostView { events: self.events.push(event), ..self }
    }

    /// The host with the identifier of the current contract stored as a byte string, if
    /// there is a current contract, and the handle issued for it.
    pub open spec fn with_current_contract_object(self) -> (HostView<C>, Option<BytesObject>) {
        match self.current_contract_id() {
            Some(id) => (
                self.with_object(HostObjectView::Bytes(id@)),
                Some(BytesObject { handle: self.objects.len() as u32 }),
            ),
            None => (self, None),
        }
    }

    /// The host after an error was reported to the trace, and whether that went well.
    ///
    /// While diagnostics are off nothing happens. While they are on, one event is
    /// recorded, attributed to the current contract: its topics are the name `error`
    /// and the error code; its data is the message followed by `args`. The objects
    /// that the event needs are stored free of charge. If the object store has no room
    /// for all of them the host is left as it is and the report fails.
    pub open spec fn err_diagnostics(self, error: Error, msg: Seq<u8>, args: Seq<RawVal>) -> (
        HostView<C>,
        Result<(), HostError>,
    ) {
        if !self.is_debug() {
            (self, Ok(()))
        } else if !self.has_object_room(self.current_contract_objects() + 3) {
            (self, Err(object_limit_exceeded()))
        } else {
            let (h0, contract_id) = self.with_current_contract_object();
            let topics = VecObject { handle: h0.objects.len() as u32 };
            let h1 = h0.with_object(
                HostObjectView::Vec(seq![RawVal::Symbol(spec_error_symbol()), RawVal::Error(error)]),
            );
            let message = Object { kind: ObjectKind::String, handle: h1.objects.len() as u32 };
            let h2 = h1.with_object(HostObjectView::String(msg));
            let data = Object { kind: ObjectKind::Vec, handle: h2.objects.len() as u32 };
            let h3 = h2.with_object(HostObjectView::Vec(seq![RawVal::Object(message)] + args));
            (h3.with_event(diagnostic_event(contract_id, topics, RawVal::Object(data))), Ok(()))
        }
    }

    /// The host after the failure `error` was raised: the failure is reported to the
    /// trace as far as that is possible, and is raised either way.
    pub open spec fn error(self, error: Error, msg: Seq<u8>, args: Seq<RawVal>) -> HostView<C> {
        self.err_diagnostics(error, msg, args).0
    }

    /// The host after a call was reported to the trace, and whether that went well.
    ///
    /// While diagnostics are off nothing happens. While they are on, one event is
    /// recorded, attributed to the current contract, which is the caller: its topics
    /// are the name `fn_call`, the identifier of the called contract and the name of
    /// the function; its data is the sequence of the arguments. The objects that the
    /// event needs are stored free of charge. If the object store has no room for all
    /// of them the host is left as it is and the report fails.
    pub open spec fn fn_call_diagnostics(
        self,
        called_contract_id: Hash256,
        func: Symbol,
        args: Seq<RawVal>,
    ) -> (HostView<C>, Result<(), HostError>) {
        if !self.is_debug() {
            (self, Ok(()))
        } else if !self.has_object_room(self.current_contract_objects() + 3) {
            (self, Err(object_limit_exceeded()))
        } else {
            let (h0, calling_contract) = self.with_current_contract_object();
            let called = Object { kind: ObjectKind::Bytes, handle: h0.objects.len() as u32 };
            let h1 = h0.with_object(HostObjectView::Bytes(called_contract_id@));
            let topics = VecObject { handle: h1.objects.len() as u32 };
            let h2 = h1.with_object(
                HostObjectView::Vec(
                    seq![
                        RawVal::Symbol(spec_fn_call_symbol()),
                        RawVal::Object(called),
                        RawVal::Symbol(func),
                    ],
                ),
            );
            let data = Object { kind: ObjectKind::Vec, handle: h2.objects.len() as u32 };
            let h3 = h2.with_object(HostObjectView::Vec(args));
            (
                h3.with_event(diagnostic_event(calling_contract, topics, RawVal::Object(data))),
                Ok(()),
            )
        }
    }

    /// The host after a return was reported to the trace, and whether that went well.
    ///
    /// While diagnostics are off nothing happens. While they are on, one event is
    /// recorded, attributed to the current contract, as every report is: there is none
    /// on an empty stack or under a frame of the host itself. Its topics are the name
    /// `fn_return` and the name of the function; its data is the value returned. The
    /// objects that the event needs are stored free of charge. If the object store has
    /// no room for all of them the host is left as it is and the report fails.
    ///
    /// `contract_id` is the contract that returned. It is not recorded: a report that
    /// is made inside the frame of that contract is attributed to it because it is the
    /// current contract there.
    pub open spec fn fn_return_diagnostics(self, contract_id: Hash256, func: Symbol, res: RawVal) -> (
        HostView<C>,
        Result<(), HostError>,
    ) {
        if !self.is_debug() {
            (self, Ok(()))
        } else if !self.has_object_room(self.current_contract_objects() + 1) {
            (self, Err(object_limit_exceeded()))
        } else {
            let (h0, current) = self.with_current_contract_object();
            let topics = VecObject { handle: h0.objects.len() as u32 };
            let h1 = h0.with_object(
                HostObjectView::Vec(
                    seq![RawVal::Symbol(spec_fn_return_symbol()), RawVal::Symbol(func)],
                ),
            );
            (h1.with_event(diagnostic_event(current, topics, res)), Ok(()))
        }
    }
}

/// None of these functions is metered: whatever they store is stored with metering
/// suspended.
impl<C: Copy> Host<C> {
    /// Whether trace events are recorded.
    pub fn is_debug(&self) -> (r: bool)
        ensures
            r == self@.is_debug(),
    {
        matches!(self.diagnostic_level(), DiagnosticLevel::Debug)
    }

    /// Whether `n` more objects can be stored.
    pub fn has_object_room(&self, n: usize) -> (r: bool)
        ensures
            r == self@.has_object_room(n as nat),
    {
        let len: u128 = self.objects_len() as u128;
        len + n as u128 <= 0x1_0000_0000
    }

    /// Stores `obj` with metering suspended.
    fn add_free_object(&mut self, obj: HostObject) -> (r: Object)
        requires
            old(self)@.has_object_room(1),
        ensures
            final(self)@ == old(self)@.with_object(obj@),
            r == (Object { kind: obj@.kind(), handle: old(self)@.objects.len() as u32 }),
    {
        let was = self.suspend_budget();
        let r = self.add_host_object(obj);
        self.resume_budget(was);
        match r {
            Ok(o) => o,
            Err(_) => Object { kind: ObjectKind::Bytes, handle: 0 },
        }
    }

    /// Stores the bytes of an identifier as a byte string.
    pub fn hash_to_bytesobj(&mut self, hash: &Hash256) -> (r: Result<BytesObject, HostError>)
        ensures
            final(self)@ == old(self)@.add_object(HostObjectView::Bytes(hash@)).0,
            match old(self)@.add_object(HostObjectView::Bytes(hash@)).1 {
                Ok(o) => r == Ok::<BytesObject, HostError>(BytesObject { handle: o.handle }),
                Err(e) => r == Err::<BytesObject, HostError>(e),
            },
    {
        match self.add_host_object(HostObject::Bytes(hash.to_vec())) {
            Ok(o) => Ok(BytesObject { handle: o.handle }),
            Err(e) => Err(e),
        }
    }

    /// Appends a trace event to the log.
    pub fn record_system_debug_contract_event(
        &mut self,
        type_: ContractEventType,
        contract_id: Option<BytesObject>,
        topics: VecObject,
        data: RawVal,
    ) -> (r: Result<(), HostError>)
        ensures
            r == Ok::<(), HostError>(()),
            final(self)@ == old(self)@.with_event(
                InternalEvent::StructuredDebug(
                    InternalContractEvent { type_, contract_id, topics, data },
                ),
            ),
    {
        let ce = InternalContractEvent { type_, contract_id, topics, data };
        self.record_event(InternalEvent::StructuredDebug(ce));
        Ok(())
    }

    /// The contract that runs in the top frame; `None`, and no failure, when there is
    /// no frame or the top frame is one of the host itself.
    pub fn get_current_contract_id_unmetered(&self) -> (r: Result<Option<Hash256>, HostError>)
        ensures
            r == Ok::<Option<Hash256>, HostError>(self@.current_contract_id()),
    {
        let n = self.context_len();
        if n == 0 {
            Ok(None)
        } else {
            Ok(self.context_frame(n - 1).contract_id())
        }
    }

    /// Stores the identifier of the current contract, if there is one, with metering
    /// suspended.
    fn current_contract_bytesobject_option(&mut self) -> (r: Result<Option<BytesObject>, HostError>)
        requires
            old(self)@.has_object_room(1),
        ensures
            final(self)@ == old(self)@.with_current_contract_object().0,
            r == Ok::<Option<BytesObject>, HostError>(old(self)@.with_current_contract_object().1),
    {
        match self.get_current_contract_id_unmetered() {
            Ok(Some(calling_hash)) => {
                let o = self.add_free_object(HostObject::Bytes(calling_hash.to_vec()));
                Ok(Some(BytesObject { handle: o.handle }))
            },
            _ => Ok(None),
        }
    }

    /// Reports an error to the trace.
    pub fn err_diagnostics(&mut self, error: Error, msg: &str, args: &[RawVal]) -> (r: Result<
        (),
        HostError,
    >)
        ensures
            final(self)@ == old(self)@.err_diagnostics(error, msg.spec_bytes(), args@).0,
            r == old(self)@.err_diagnostics(error, msg.spec_bytes(), args@).1,
    {
        if !self.is_debug() {
            return Ok(());
        }
        let own: usize = match self.get_current_contract_id_unmetered() {
            Ok(Some(_)) => 1,
            _ => 0,
        };
        if !self.has_object_room(own + 3) {
            return Err(HostError::new(ScErrorType::Object, ScErrorCode::ExceededLimit));
        }
        let contract_id = match self.current_contract_bytesobject_option() {
            Ok(c) => c,
            Err(e) => {
                return Err(e);
            },
        };
        let mut topics: Vec<RawVal> = Vec::new();
        topics.push(error_symbol().to_raw());
        topics.push(error.to_raw());
        proof {
            assert(topics@ =~= seq![RawVal::Symbol(spec_error_symbol()), RawVal::Error(error)]);
        }
        let topics = self.add_free_object(HostObject::Vec(topics));
        let message = self.add_free_object(HostObject::String(msg.as_bytes_vec()));
        let mut data: Vec<RawVal> = Vec::new();
        data.push(RawVal::Object(message));
        let mut i: usize = 0;
        while i < args.len()
            invariant
                i <= args@.len(),
                data@ == seq![RawVal::Object(message)] + args@.subrange(0, i as int),
            decreases args@.len() - i,
        {
            data.push(args[i]);
            i += 1;
        }
        proof {
            assert(args@.subrange(0, i as int) =~= args@);
        }
        let data = self.add_free_object(HostObject::Vec(data));
        self.record_system_debug_contract_event(
            ContractEventType::Diagnostic,
            contract_id,
            VecObject { handle: topics.handle },
            RawVal::Object(data),
        )
    }

    /// Raises the failure `error`: reports it to the trace, as far as that is possible,
    /// and hands it back as the failure of the operation.
    pub fn error(&mut self, error: Error, msg: &str, args: &[RawVal]) -> (r: HostError)
        ensures
            final(self)@ == old(self)@.error(error, msg.spec_bytes(), args@),
            r == (HostError { error }),
    {
        let _ = self.err_diagnostics(error, msg, args);
        HostError { error }
    }

    /// Raises a failure of the given category and code; see [`Host::error`].
    pub fn err(&mut self, type_: ScErrorType, code: ScErrorCode, msg: &str, args: &[RawVal]) -> (r:
        HostError)
        ensures
            final(self)@ == old(self)@.error(Error::spec_new(type_, code), msg.spec_bytes(), args@),
            r == HostError::spec_new(type_, code),
    {
        self.error(Error::from_type_and_code(type_, code), msg, args)
    }

    /// Reports a call to the trace. It is to be called before the frame of the call is
    /// pushed, so that the event is attributed to the caller.
    pub fn fn_call_diagnostics(
        &mut self,
        called_contract_id: &Hash256,
        func: &Symbol,
        args: &[RawVal],
    ) -> (r: Result<(), HostError>)
        ensures
            final(self)@ == old(self)@.fn_call_diagnostics(*called_contract_id, *func, args@).0,
            r == old(self)@.fn_call_diagnostics(*called_contract_id, *func, args@).1,
    {
        if !self.is_debug() {
            return Ok(());
        }
        let own: usize = match self.get_current_contract_id_unmetered() {
            Ok(Some(_)) => 1,
            _ => 0,
        };
        if !self.has_object_room(own + 3) {
            return Err(HostError::new(ScErrorType::Object, ScErrorCode::ExceededLimit));
        }
        let calling_contract = match self.current_contract_bytesobject_option() {
            Ok(c) => c,
            Err(e) => {
                return Err(e);
            },
        };
        let called = self.add_free_object(HostObject::Bytes(called_contract_id.to_vec()));
        let mut topics: Vec<RawVal> = Vec::new();
        topics.push(fn_call_symbol().to_raw());
        topics.push(RawVal::Object(called));
        topics.push(func.to_raw());
        proof {
            assert(topics@ =~= seq![
                RawVal::Symbol(spec_fn_call_symbol()),
                RawVal::Object(called),
                RawVal::Symbol(*func),
            ]);
        }
        let topics = self.add_free_object(HostObject::Vec(topics));
        let data = self.add_free_object(HostObject::Vec(rawvals_clone(args)));
        self.record_system_debug_contract_event(
            ContractEventType::Diagnostic,
            calling_contract,
            VecObject { handle: topics.handle },
            RawVal::Object(data),
        )
    }

    /// Reports a return to the trace. The event is attributed to the current contract;
    /// `contract_id`, the contract that returned, is not recorded.
    pub fn fn_return_diagnostics(&mut self, contract_id: &Hash256, func: &Symbol, res: &RawVal) -> (r:
        Result<(), HostError>)
        ensures
            final(self)@ == old(self)@.fn_return_diagnostics(*contract_id, *func, *res).0,
            r == old(self)@.fn_return_diagnostics(*contract_id, *func, *res).1,
    {
        if !self.is_debug() {
            return Ok(());
        }
        let own: usize = match self.get_current_contract_id_unmetered() {
            Ok(Some(_)) => 1,
            _ => 0,
        };
        if !self.has_object_room(own + 1) {
            return Err(HostError::new(ScErrorType::Object, ScErrorCode::ExceededLimit));
        }
        let current = match self.current_contract_bytesobject_option() {
            Ok(c) => c,
            Err(e) => {
                return Err(e);
            },
        };
        let mut topics: Vec<RawVal> = Vec::new();
        topics.push(fn_return_symbol().to_raw());
        topics.push(func.to_raw());
        proof {
            assert(topics@ =~= seq![RawVal::Symbol(spec_fn_return_symbol()), RawVal::Symbol(*func)]);
        }
        let topics = self.add_free_object(HostObject::Vec(topics));
        self.record_system_debug_contract_event(
            ContractEventType::Diagnostic,
            current,
            VecObject { handle: topics.handle },
            *res,
        )
    }
}

/// With diagnostics off, no emitter touches the host: the event log, the object
/// store and the budget are what they were.
pub proof fn lemma_diagnostics_off<C>(
    h: HostView<C>,
    error: Error,
    msg: Seq<u8>,
    id: Hash256,
    func: Symbol,
    args: Seq<RawVal>,
    res: RawVal,
)
    requires
        !h.is_debug(),
    ensures
        h.err_diagnostics(error, msg, args) == (h, Ok::<(), HostError>(())),
        h.fn_call_diagnostics(id, func, args) == (h, Ok::<(), HostError>(())),
        h.fn_return_diagnostics(id, func, res) == (h, Ok::<(), HostError>(())),
{
}

/// With diagnostics on, an emitter that succeeds appends exactly one event, a trace
/// event attributed to the current contract (to none where there is none), and leaves
/// the budget, the storage map and the frames alone. An emitter that fails leaves the
/// host as it was.
pub proof fn lemma_diagnostics_on<C>(
    h: HostView<C>,
    error: Error,
    msg: Seq<u8>,
    id: Hash256,
    func: Symbol,
    args: Seq<RawVal>,
    res: RawVal,
)
    requires
        h.is_debug(),
    ensures
        ({
            let (post, r) = h.err_diagnostics(error, msg, args);
            &&& r is Err ==> post == h
            &&& r is Ok ==> {
                &&& post.events.len() == h.events.len() + 1
                &&& post.events.drop_last() == h.events
                &&& post.events.last() matches InternalEvent::StructuredDebug(e)
                &&& e.type_ == ContractEventType::Diagnostic
                &&& e.contract_id is Some <==> h.current_contract_id() is Some
                &&& e.contract_id matches Some(c) ==> post.object_at(c.spec_to_object()) == Ok::<
                    HostObjectView,
                    HostError,
                >(HostObjectView::Bytes(h.current_contract_id()->0@))
                &&& post.object_at(e.topics.spec_to_object()) == Ok::<HostObjectView, HostError>(
                    HostObjectView::Vec(
                        seq![RawVal::Symbol(spec_error_symbol()), RawVal::Error(error)],
                    ),
                )
                &&& e.data matches RawVal::Object(d)
                &&& post.object_at(d) matches Ok(HostObjectView::Vec(items))
                &&& items.len() == args.len() + 1
                &&& items.subrange(1, items.len() as int) == args
                &&& items[0] matches RawVal::Object(m)
                &&& post.object_at(m) == Ok::<HostObjectView, HostError>(HostObjectView::String(msg))
                &&& post.budget == h.budget
                &&& post.storage == h.storage
                &&& post.frames == h.frames
                &&& post.keeps_objects_of(h)
            }
        }),
        ({
            let (post, r) = h.fn_call_diagnostics(id, func, args);
            &&& r is Err ==> post == h
            &&& r is Ok ==> {
                &&& post.events.len() == h.events.len() + 1
                &&& post.events.drop_last() == h.events
                &&& post.events.last() matches InternalEvent::StructuredDebug(e)
                &&& e.type_ == ContractEventType::Diagnostic
                &&& e.contract_id is Some <==> h.current_contract_id() is Some
                &&& e.contract_id matches Some(c) ==> post.object_at(c.spec_to_object()) == Ok::<
                    HostObjectView,
                    HostError,
                >(HostObjectView::Bytes(h.current_contract_id()->0@))
                &&& post.object_at(e.topics.spec_to_object()) matches Ok(HostObjectView::Vec(topics))
                &&& topics.len() == 3
                &&& topics[0] == RawVal::Symbol(spec_fn_call_symbol())
                &&& topics[1] matches RawVal::Object(called)
                &&& post.object_at(called) == Ok::<HostObjectView, HostError>(
                    HostObjectView::Bytes(id@),
                )
                &&& topics[2] == RawVal::Symbol(func)
                &&& e.data matches RawVal::Object(d)
                &&& post.object_at(d) == Ok::<HostObjectView, HostError>(HostObjectView::Vec(args))
                &&& post.budget == h.budget
                &&& post.storage == h.storage
                &&& post.frames == h.frames
                &&& post.keeps_objects_of(h)
            }
        }),
        ({
            let (post, r) = h.fn_return_diagnostics(id, func, res);
            &&& r is Err ==> post == h
            &&& r is Ok ==> {
                &&& post.events.len() == h.events.len() + 1
                &&& post.events.drop_last() == h.events
                &&& post.events.last() matches InternalEvent::StructuredDebug(e)
                &&& e.type_ == ContractEventType::Diagnostic
                &&& e.contract_id is Some <==> h.current_contract_id() is Some
                &&& e.contract_id matches Some(c) ==> post.object_at(c.spec_to_object()) == Ok::<
                    HostObjectView,
                    HostError,
                >(HostObjectView::Bytes(h.current_contract_id()->0@))
                &&& post.object_at(e.topics.spec_to_object()) == Ok::<HostObjectView, HostError>(
                    HostObjectView::Vec(
                        seq![RawVal::Symbol(spec_fn_return_symbol()), RawVal::Symbol(func)],
                    ),
                )
                &&& e.data == res
                &&& post.budget == h.budget
                &&& post.storage == h.storage
                &&& post.frames == h.frames
                &&& post.keeps_objects_of(h)
            }
        }),
{
}

/// No report to the trace takes an object away or changes one.
pub proof fn lemma_reports_keep_objects<C>(h: HostView<C>)
    ensures
        forall|error: Error, msg: Seq<u8>, args: Seq<RawVal>|
            (#[trigger] h.err_diagnostics(error, msg, args)).0.keeps_objects_of(h),
        forall|id: Hash256, func: Symbol, args: Seq<RawVal>|
            (#[trigger] h.fn_call_diagnostics(id, func, args)).0.keeps_objects_of(h),
        forall|id: Hash256, func: Symbol, res: RawVal|
            (#[trigger] h.fn_return_diagnostics(id, func, res)).0.keeps_objects_of(h),
{
}

} // verus!
