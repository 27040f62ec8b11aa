//! The event log: an append-only sequence of events that a rollback cuts back to the
//! length it had when the rollback point was taken.
use crate::host::frame::no_contract_running_message;
use crate::host::{Host, HostView};
use crate::host_object::{unexpected_object_type, HostObject, HostObjectView};
use crate::val::{
    BytesObject, Error, HostError, Object, ObjectKind, RawVal, ScErrorCode, ScErrorType, VecObject,
};
use crate::xdr::ContractEventType;
use vstd::prelude::*;

pub mod diagnostic;

verus! {

/// One recorded event. Topics and data are values of the host: where they are
/// objects, the event holds their handles.
#[derive(Clone, Copy, Debug, PartialEq, Eq)]
pub struct InternalContractEvent {
    pub type_: ContractEventType,
    pub contract_id: Option<BytesObject>,
    pub topics: VecObject,
    pub data: RawVal,
}

/// An entry of the event log.
#[derive(Clone, Copy, Debug, PartialEq, Eq)]
pub enum InternalEvent {
    /// An event that a contract or the host emitted as part of its work.
    Contract(InternalContractEvent),
    /// A trace event, recorded only while diagnostics are on.
    StructuredDebug(InternalContractEvent),
}

/// The event log.
#[derive(Debug)]
pub struct InternalEventsBuffer {
    pub vec: Vec<InternalEvent>,
}

impl View for InternalEventsBuffer {
    type V = Seq<InternalEvent>;

    open spec fn view(&self) -> Seq<InternalEvent> {
        self.vec@
    }
}

/// The log cut back to its first `len` events; unchanged when it has no more than that.
pub open spec fn spec_rollback(events: Seq<InternalEvent>, len: nat) -> Seq<InternalEvent> {
    if len <= events.len() {
        events.subrange(0, len as int)
    } else {
        events
    }
}

impl InternalEventsBuffer {
    /// An empty log.
    pub fn new() -> (r: InternalEventsBuffer)
        ensures
            r@ == Seq::<InternalEvent>::empty(),
    {
        InternalEventsBuffer { vec: Vec::new() }
    }

    /// Appends an event.
    pub fn record(&mut self, e: InternalEvent)
        ensures
            final(self)@ == old(self)@.push(e),
    {
        self.vec.push(e);
    }

    /// Cuts the log back to its first `events` entries.
    pub fn rollback(&mut self, events: usize)
        ensures
            final(self)@ == spec_rollback(old(self)@, events as nat),
    {
        self.vec.truncate(events);
    }

    /// The number of events in the log.
    pub fn len(&self) -> (r: usize)
        ensures
            r == self@.len(),
    {
        self.vec.len()
    }
}

/// A rollback discards a suffix of the log and nothing else: what stays is a prefix
/// of what was there.
pub proof fn lemma_rollback_is_prefix(events: Seq<InternalEvent>, len: nat)
    ensures
        spec_rollback(events, len).is_prefix_of(events),
        spec_rollback(events, len).len() <= events.len(),
        len <= events.len() ==> spec_rollback(events, len).len() == len,
{
}

/// Rolling back to the length that a log had gives that log back, whatever was
/// appended to it since.
pub proof fn lemma_rollback_restores(before: Seq<InternalEvent>, after: Seq<InternalEvent>)
    requires
        before.is_prefix_of(after),
    ensures
        spec_rollback(after, before.len()) == before,
{
}


/// The most topics that an event can have.
pub const CONTRACT_EVENT_TOPICS_LIMIT: usize = 4;

/// The most bytes that a byte string can have to be a topic.
pub const TOPIC_BYTES_LENGTH_LIMIT: usize = 32;

/// The error that reports an event with too many topics.
pub open spec fn too_many_topics() -> HostError {
    HostError::spec_new(ScErrorType::Events, ScErrorCode::ExceededLimit)
}

/// The error that reports a topic that is a sequence, a mapping or a long byte
/// string.
pub open spec fn invalid_topic() -> HostError {
    HostError::spec_new(ScErrorType::Events, ScErrorCode::InvalidInput)
}

/// Whether `topic` can be a topic: it may not be a sequence or a mapping, and if it
/// is a byte string it may not have more than 32 bytes.
pub open spec fn topic_ok(objects: Seq<HostObjectView>, topic: RawVal) -> Result<(), HostError> {
    match topic {
        RawVal::Object(o) => match o.kind {
            ObjectKind::Vec => Err(invalid_topic()),
            ObjectKind::OrdMap => Err(invalid_topic()),
            ObjectKind::Bytes => if o.handle >= objects.len() {
                Err(crate::host_object::unknown_reference())
            } else {
                match objects[o.handle as int] {
                    HostObjectView::Bytes(b) => if b.len() > TOPIC_BYTES_LENGTH_LIMIT {
                        Err(invalid_topic())
                    } else {
                        Ok(())
                    },
                    _ => Err(unexpected_object_type()),
                }
            },
            _ => Ok(()),
        },
        _ => Ok(()),
    }
}

/// Whether each of the first `n` of `topics` can be a topic; the first one that
/// cannot gives the error.
pub open spec fn topics_ok(objects: Seq<HostObjectView>, topics: Seq<RawVal>, n: nat) -> Result<
    (),
    HostError,
>
    decreases n,
{
    if n == 0 {
        Ok(())
    } else {
        match topics_ok(objects, topics, (n - 1) as nat) {
            Err(e) => Err(e),
            Ok(_) => if n - 1 < topics.len() {
                topic_ok(objects, topics[n - 1])
            } else {
                Ok(())
            },
        }
    }
}

/// Once one of the first `k` topics is refused, looking at more of them does not
/// change the answer.
pub proof fn lemma_topics_ok_fails(
    objects: Seq<HostObjectView>,
    topics: Seq<RawVal>,
    k: nat,
    n: nat,
)
    requires
        k <= n,
        topics_ok(objects, topics, k) is Err,
    ensures
        topics_ok(objects, topics, n) == topics_ok(objects, topics, k),
    decreases n,
{
    if n > k {
        lemma_topics_ok_fails(objects, topics, k, (n - 1) as nat);
    }
}

impl<C> HostView<C> {
    /// Whether the sequence that `topics` leads to can be the topics of an event: at
    /// most 4 values, none of them a sequence, a mapping, or a byte string of more than
    /// 32 bytes.
    pub open spec fn validate_contract_event_topics(self, topics: VecObject) -> Result<(), HostError> {
        match self.object_at(topics.spec_to_object()) {
            Err(e) => Err(e),
            Ok(HostObjectView::Vec(items)) => if items.len() > CONTRACT_EVENT_TOPICS_LIMIT {
                Err(too_many_topics())
            } else {
                topics_ok(self.objects, items, items.len())
            },
            Ok(_) => Err(unexpected_object_type()),
        }
    }

    /// The host after an event of the current contract was recorded, and whether that
    /// went well. The topics are checked first. Then the current contract is asked for:
    /// an empty stack is a failure, `Context`/`InvalidAction`, which is reported to the
    /// trace. The identifier of the contract, if there is one, is stored as a byte
    /// string, which is charged and may fail. Then the event is appended.
    pub open spec fn record_contract_event(
        self,
        type_: ContractEventType,
        topics: VecObject,
        data: RawVal,
    ) -> (HostView<C>, Result<(), HostError>) {
        match self.validate_contract_event_topics(topics) {
            Err(e) => (self, Err(e)),
            Ok(_) => if self.frames.len() == 0 {
                (
                    self.error(
                        Error::spec_new(ScErrorType::Context, ScErrorCode::InvalidAction),
                        no_contract_running_message(),
                        Seq::empty(),
                    ),
                    Err(HostError::spec_new(ScErrorType::Context, ScErrorCode::InvalidAction)),
                )
            } else {
                match self.current_contract_id() {
                    None => (
                        self.with_event(
                            InternalEvent::Contract(
                                InternalContractEvent { type_, contract_id: None, topics, data },
                            ),
                        ),
                        Ok(()),
                    ),
                    Some(id) => match self.add_object(HostObjectView::Bytes(id@)).1 {
                        Err(e) => (self.add_object(HostObjectView::Bytes(id@)).0, Err(e)),
                        Ok(o) => (
                            self.add_object(HostObjectView::Bytes(id@)).0.with_event(
                                InternalEvent::Contract(
                                    InternalContractEvent {
                                        type_,
                                        contract_id: Some(BytesObject { handle: o.handle }),
                                        topics,
                                        data,
                                    },
                                ),
                            ),
                            Ok(()),
                        ),
                    },
                }
            },
        }
    }
}

impl<C: Copy> Host<C> {
    /// Checks the topics of an event.
    pub fn validate_contract_event_topics(&self, topics: VecObject) -> (r: Result<(), HostError>)
        ensures
            r == self@.validate_contract_event_topics(topics),
    {
        let items = match self.visit_obj(topics.to_object()) {
            Err(e) => {
                return Err(e);
            },
            Ok(HostObject::Vec(items)) => items,
            Ok(_) => {
                return Err(HostError::new(ScErrorType::Object, ScErrorCode::UnexpectedType));
            },
        };
        if items.len() > CONTRACT_EVENT_TOPICS_LIMIT {
            return Err(HostError::new(ScErrorType::Events, ScErrorCode::ExceededLimit));
        }
        let mut i: usize = 0;
        while i < items.len()
            invariant
                i <= items@.len(),
                items@.len() <= CONTRACT_EVENT_TOPICS_LIMIT,
                self@.object_at(topics.spec_to_object()) == Ok::<HostObjectView, HostError>(
                    HostObjectView::Vec(items@),
                ),
                topics_ok(self@.objects, items@, i as nat) == Ok::<(), HostError>(()),
            decreases items@.len() - i,
        {
            let checked = self.event_topic_from_rawval(items[i]);
            proof {
                if checked is Err {
                    lemma_topics_ok_fails(self@.objects, items@, (i + 1) as nat, items@.len());
                }
            }
            match checked {
                Err(e) => {
                    return Err(e);
                },
                Ok(()) => {},
            }
            i += 1;
        }
        Ok(())
    }

    /// Checks one topic of an event.
    pub fn event_topic_from_rawval(&self, topic: RawVal) -> (r: Result<(), HostError>)
        ensures
            r == topic_ok(self@.objects, topic),
    {
        let invalid = HostError::new(ScErrorType::Events, ScErrorCode::InvalidInput);
        match topic {
            RawVal::Object(o) => match o.kind {
                ObjectKind::Vec => Err(invalid),
                ObjectKind::OrdMap => Err(invalid),
                ObjectKind::Bytes => match self.object(o.handle) {
                    None => Err(HostError::new(ScErrorType::Object, ScErrorCode::MissingValue)),
                    Some(HostObject::Bytes(b)) => if b.len() > TOPIC_BYTES_LENGTH_LIMIT {
                        Err(invalid)
                    } else {
                        Ok(())
                    },
                    Some(_) => Err(HostError::new(ScErrorType::Object, ScErrorCode::UnexpectedType)),
                },
                _ => Ok(()),
            },
            _ => Ok(()),
        }
    }

    /// Records an event of the current contract.
    pub fn record_contract_event(
        &mut self,
        type_: ContractEventType,
        topics: VecObject,
        data: RawVal,
    ) -> (r: Result<(), HostError>)
        ensures
            final(self)@ == old(self)@.record_contract_event(type_, topics, data).0,
            r == old(self)@.record_contract_event(type_, topics, data).1,
    {
        match self.validate_contract_event_topics(topics) {
            Err(e) => {
                return Err(e);
            },
            Ok(()) => {},
        }
        let contract_id = match self.get_current_contract_id_opt_internal() {
            Err(e) => {
                return Err(e);
            },
            Ok(None) => None,
            Ok(Some(id)) => match self.hash_to_bytesobj(&id) {
                Err(e) => {
                    return Err(e);
                },
                Ok(o) => Some(o),
            },
        };
        let ce = InternalContractEvent { type_, contract_id, topics, data };
        self.record_event(InternalEvent::Contract(ce));
        Ok(())
    }

    /// Records a `System` contract event. `topics` is expected to be a sequence of
    /// length <= 4 that cannot contain a sequence, a mapping, or a byte string with
    /// length > 32.
    pub fn system_event(&mut self, topics: VecObject, data: RawVal) -> (r: Result<(), HostError>)
        ensures
            final(self)@ == old(self)@.record_contract_event(
                ContractEventType::System,
                topics,
                data,
            ).0,
            r == old(self)@.record_contract_event(ContractEventType::System, topics, data).1,
    {
        self.record_contract_event(ContractEventType::System, topics, data)
    }
}

} // verus!
