//! The stack of invocation frames and the protocol around it: a frame is pushed with
//! a rollback point, the invocation runs, and the frame is popped, either keeping
//! what the invocation did or putting the host back to the rollback point.
use crate::auth::{AuthSnapshotView, AuthorizationManagerSnapshot};
use crate::budget::ContractCostType;
use crate::events::{lemma_rollback_is_prefix, lemma_rollback_restores, spec_rollback};
use crate::host::{Host, HostView};
use crate::storage::{BindingView, StorageMap};
use crate::val::{Error, Hash256, HostError, Object, RawVal, ScErrorCode, ScErrorType, Symbol};
use crate::xdr::HostFunctionType;
use std::rc::Rc;
use vstd::prelude::*;
use vstd::string::*;

verus! {

/// Determines the re-entry mode for calling a contract.
#[derive(Clone, Copy, Debug, PartialEq, Eq, Structural)]
pub enum ContractReentryMode {
    /// Re-entry is completely prohibited.
    Prohibited,
    /// Re-entry is allowed, but only directly into the same contract: a contract may
    /// call itself, but not through another contract.
    SelfAllowed,
    /// Re-entry is fully allowed.
    Allowed,
}

/// What a frame keeps of the host so that a failed invocation can be undone: the
/// storage map, the length of the event log, and the state of the authorisation
/// manager where it could be had.
#[derive(Debug)]
pub struct RollbackPoint {
    pub storage: StorageMap,
    pub events: usize,
    pub auth: Option<AuthorizationManagerSnapshot>,
}

/// The mathematical content of a [`RollbackPoint`].
pub ghost struct RollbackPointView {
    pub storage: Seq<BindingView>,
    pub events: nat,
    pub auth: Option<AuthSnapshotView>,
}

impl View for RollbackPoint {
    type V = RollbackPointView;

    open spec fn view(&self) -> RollbackPointView {
        RollbackPointView {
            storage: self.storage@,
            events: self.events as nat,
            auth: match self.auth {
                Some(s) => Some(s@),
                None => None,
            },
        }
    }
}

/// A unit of code ready to run on behalf of a contract.
#[derive(Debug)]
pub struct Vm {
    pub contract_id: Hash256,
    pub code: Vec<u8>,
}

/// The frame of a contract that runs natively, in the process of the host.
#[derive(Debug)]
pub struct TestContractFrame {
    pub id: Hash256,
    pub func: Symbol,
    pub args: Vec<RawVal>,
    /// The error that the contract recorded before it gave up, if it did.
    pub panic: Option<Error>,
}

impl TestContractFrame {
    /// A frame for a call of `func` on contract `id`, with no error recorded.
    pub fn new(id: Hash256, func: Symbol, args: Vec<RawVal>) -> (r: TestContractFrame)
        ensures
            r.id == id,
            r.func == func,
            r.args == args,
            r.panic is None,
    {
        TestContractFrame { id, func, args, panic: None }
    }
}

/// Holds contextual information about a single invocation: the code that runs, or
/// the operation that was invoked on the host from outside.
///
/// Frames are also the units of (sub-)transactions: each frame captures the host
/// state when it is pushed, and that state is either committed or rolled back when
/// the frame is popped.
#[derive(Debug)]
pub enum Frame {
    ContractVM(Rc<Vm>, Symbol, Vec<RawVal>),
    HostFunction(HostFunctionType),
    Token(Hash256, Symbol, Vec<RawVal>),
    TestContract(TestContractFrame),
}

/// The mathematical content of a [`Frame`].
pub ghost enum FrameView {
    ContractVM { contract_id: Hash256, code: Seq<u8>, func: Symbol, args: Seq<RawVal> },
    HostFunction(HostFunctionType),
    Token { contract_id: Hash256, func: Symbol, args: Seq<RawVal> },
    TestContract { contract_id: Hash256, func: Symbol, args: Seq<RawVal>, panic: Option<Error> },
}

impl View for Frame {
    type V = FrameView;

    open spec fn view(&self) -> FrameView {
        match self {
            Frame::ContractVM(vm, func, args) => FrameView::ContractVM {
                contract_id: vm.contract_id,
                code: vm.code@,
                func: *func,
                args: args@,
            },
            Frame::HostFunction(t) => FrameView::HostFunction(*t),
            Frame::Token(id, func, args) => FrameView::Token {
                contract_id: *id,
                func: *func,
                args: args@,
            },
            Frame::TestContract(tc) => FrameView::TestContract {
                contract_id: tc.id,
                func: tc.func,
                args: tc.args@,
                panic: tc.panic,
            },
        }
    }
}

impl FrameView {
    /// The contract on whose behalf the frame runs; a frame of the host itself has none.
    pub open spec fn contract_id(self) -> Option<Hash256> {
        match self {
            FrameView::ContractVM { contract_id, .. } => Some(contract_id),
            FrameView::HostFunction(_) => None,
            FrameView::Token { contract_id, .. } => Some(contract_id),
            FrameView::TestContract { contract_id, .. } => Some(contract_id),
        }
    }

    /// The contract and the function that the frame runs; a frame of the host itself
    /// has none.
    pub open spec fn invocation(self) -> Option<(Hash256, Symbol)> {
        match self {
            FrameView::ContractVM { contract_id, func, .. } => Some((contract_id, func)),
            FrameView::HostFunction(_) => None,
            FrameView::Token { contract_id, func, .. } => Some((contract_id, func)),
            FrameView::TestContract { contract_id, func, .. } => Some((contract_id, func)),
        }
    }

    /// The error that was recorded in the frame, if the frame has a place for one and
    /// it is taken.
    pub open spec fn captured_error(self) -> Option<Error> {
        match self {
            FrameView::TestContract { panic, .. } => panic,
            _ => None,
        }
    }

    /// Whether two frames are frames of the same invocation: they may differ in the
    /// error that was recorded, and in nothing else.
    pub open spec fn same_invocation(self, other: FrameView) -> bool {
        match self {
            FrameView::TestContract { contract_id, func, args, panic } => {
                &&& other is TestContract
                &&& other->TestContract_contract_id == contract_id
                &&& other->TestContract_func == func
                &&& other->TestContract_args == args
            },
            _ => other == self,
        }
    }

    /// The frame with `error` recorded in it. Only the frame of a native contract has a
    /// place for an error; any other frame stays as it is.
    pub open spec fn with_captured_error(self, error: Error) -> FrameView {
        match self {
            FrameView::TestContract { contract_id, func, args, panic } => FrameView::TestContract {
                contract_id,
                func,
                args,
                panic: Some(error),
            },
            _ => self,
        }
    }
}

impl Frame {
    /// The contract on whose behalf the frame runs; a frame of the host itself has none.
    pub fn contract_id(&self) -> (r: Option<Hash256>)
        ensures
            r == self@.contract_id(),
    {
        match self {
            Frame::ContractVM(vm, _, _) => Some(vm.contract_id),
            Frame::HostFunction(_) => None,
            Frame::Token(id, _, _) => Some(*id),
            Frame::TestContract(tc) => Some(tc.id),
        }
    }

    /// The contract and the function that the frame runs.
    pub fn invocation(&self) -> (r: Option<(Hash256, Symbol)>)
        ensures
            r == self@.invocation(),
    {
        match self {
            Frame::ContractVM(vm, func, _) => Some((vm.contract_id, *func)),
            Frame::HostFunction(_) => None,
            Frame::Token(id, func, _) => Some((*id, *func)),
            Frame::TestContract(tc) => Some((tc.id, tc.func)),
        }
    }

    /// The error that was recorded in the frame.
    pub fn captured_error(&self) -> (r: Option<Error>)
        ensures
            r == self@.captured_error(),
    {
        match self {
            Frame::TestContract(tc) => tc.panic,
            _ => None,
        }
    }
}

/// The views of the frames of a stack, bottom first.
pub open spec fn frames_view(frames: Seq<Frame>) -> Seq<FrameView> {
    Seq::new(frames.len(), |i: int| frames[i]@)
}

/// The message for a success that turns out to carry an error.
pub open spec fn escalation_message() -> Seq<u8> {
    "escalating Ok(Error) frame-exit to Err(Error)".spec_bytes()
}

/// The message for a look at the current frame when there is none.
pub open spec fn no_contract_running_message() -> Seq<u8> {
    "no contract running".spec_bytes()
}

/// The message for a current frame that belongs to the host itself.
pub open spec fn no_contract_id_message() -> Seq<u8> {
    "Current context has no contract ID".spec_bytes()
}

/// The message for an invoker that is the host itself.
pub open spec fn invoker_not_contract_message() -> Seq<u8> {
    "invoker is not a contract".spec_bytes()
}

/// The message for a stack too short to have an invoker.
pub open spec fn no_invoker_message() -> Seq<u8> {
    "no frames to derive the invoker from".spec_bytes()
}

impl<C> HostView<C> {
    /// Whether `post` can be what the host has become while the top frame ran. The
    /// frames are those of before, except that an error may have been recorded in the
    /// top one; every object and every event of before is still there; and the
    /// authorisation manager records if and only if it did.
    pub open spec fn evolves_to(self, post: HostView<C>) -> bool {
        &&& post.frames.len() == self.frames.len()
        &&& forall|i: int| 0 <= i < self.frames.len() - 1 ==> #[trigger] post.frames[i] == self.frames[i]
        &&& self.frames.len() > 0 ==> post.frames.last().same_invocation(self.frames.last())
        &&& self.objects.is_prefix_of(post.objects)
        &&& self.events.is_prefix_of(post.events)
        &&& post.auth.recording == self.auth.recording
    }

    /// The host after `frame` was pushed, and the rollback point taken for it.
    ///
    /// The authorisation manager is told of the frame, which may fail; then nothing
    /// is pushed. Where the manager is busy it is left alone and nothing of it goes
    /// into the rollback point. The rollback point holds the storage map and the
    /// length of the event log as they are at this moment.
    pub open spec fn push_frame(self, frame: FrameView) -> (
        HostView<C>,
        Result<RollbackPointView, HostError>,
    ) {
        if self.auth.in_use {
            (
                HostView { frames: self.frames.push(frame), ..self },
                Ok(RollbackPointView { storage: self.storage, events: self.events.len(), auth: None }),
            )
        } else {
            let (auth, budget, r) = self.auth.push_frame(self.budget, frame);
            match r {
                Err(e) => (HostView { auth, budget, ..self }, Err(e)),
                Ok(_) => (
                    HostView { auth, budget, frames: self.frames.push(frame), ..self },
                    Ok(
                        RollbackPointView {
                            storage: self.storage,
                            events: self.events.len(),
                            auth: Some(auth.snapshot()),
                        },
                    ),
                ),
            }
        }
    }

    /// The host put back to a rollback point: the storage map is replaced, the event
    /// log is cut back, and the authorisation manager is restored where the rollback
    /// point holds something of it.
    pub open spec fn rolled_back(self, rp: RollbackPointView) -> HostView<C> {
        HostView {
            storage: rp.storage,
            events: spec_rollback(self.events, rp.events),
            auth: match rp.auth {
                Some(snapshot) => self.auth.rollback(snapshot),
                None => self.auth,
            },
            ..self
        }
    }

    /// The host after the top frame was popped, and whether that went well.
    ///
    /// The authorisation manager is told, unless it is busy. Once the stack is empty
    /// the manager gets the chance to emulate authentication, unless it is busy; if
    /// that fails the pop fails with that failure. With a rollback point the host is
    /// put back to it, whether or not the pop went well; without one, everything that
    /// happened while the frame was on the stack stays.
    pub open spec fn pop_frame(self, orp: Option<RollbackPointView>) -> (
        HostView<C>,
        Result<(), HostError>,
    )
        recommends
            self.frames.len() > 0,
    {
        let h1 = HostView { frames: self.frames.drop_last(), ..self };
        let h2 = if h1.auth.in_use {
            h1
        } else {
            HostView { auth: h1.auth.pop_frame(), ..h1 }
        };
        let (h3, r) = if h2.frames.len() == 0 && !h2.auth.in_use {
            let (auth, budget, r) = h2.auth.maybe_emulate_authentication(h2.budget);
            (HostView { auth, budget, ..h2 }, r)
        } else {
            (h2, Ok(()))
        };
        match orp {
            Some(rp) => (h3.rolled_back(rp), r),
            None => (h3, r),
        }
    }

    /// What the result of an invocation counts as: a success whose value is an error
    /// code is a failure with that code, and is reported to the trace.
    pub open spec fn escalate(self, res: Result<RawVal, HostError>) -> (
        HostView<C>,
        Result<RawVal, HostError>,
    ) {
        match res {
            Ok(v) => match v.spec_as_error() {
                Some(err) => (
                    self.error(err, escalation_message(), Seq::empty()),
                    Err(HostError { error: err }),
                ),
                None => (self, Ok(v)),
            },
            Err(e) => (self, Err(e)),
        }
    }

    /// The host after the invocation in the top frame ended with `res`, and the result
    /// of the scope. A success that carries an error code counts as a failure. A
    /// failure is the result of the scope: the frame is popped and the host put back to
    /// the rollback point. On success the frame is popped and what the invocation did
    /// stays; but if that pop fails, its failure is the result of the scope, and the
    /// host is put back to the rollback point then as well. So a scope that fails has
    /// always rolled back.
    pub open spec fn exit_frame(self, rp: RollbackPointView, res: Result<RawVal, HostError>) -> (
        HostView<C>,
        Result<RawVal, HostError>,
    )
        recommends
            self.frames.len() > 0,
    {
        let (h1, res1) = self.escalate(res);
        match res1 {
            Err(e) => (h1.pop_frame(Some(rp)).0, Err(e)),
            Ok(v) => match h1.pop_frame(None).1 {
                Err(e) => (h1.pop_frame(None).0.rolled_back(rp), Err(e)),
                Ok(_) => (h1.pop_frame(None).0, Ok(v)),
            },
        }
    }

    /// The host after the guard of a frame was charged and the frame pushed, and the
    /// rollback point, if both went well.
    pub open spec fn enter_frame(self, frame: FrameView) -> (
        HostView<C>,
        Result<RollbackPointView, HostError>,
    ) {
        let (charged, r) = self.charge(ContractCostType::GuardFrame, None);
        match r {
            Err(e) => (charged, Err(e)),
            Ok(_) => charged.push_frame(frame),
        }
    }

    /// Whether `inner` is the host as the invocation in a new frame `frame` finds it.
    pub open spec fn enters(self, frame: FrameView, inner: HostView<C>) -> bool {
        self.enter_frame(frame).1 is Ok && inner == self.enter_frame(frame).0
    }

    /// Whether a guarded scope for `frame`, started on this host, can end with the
    /// host `post` and the result `r`.
    ///
    /// If the guard cannot be charged or the frame cannot be pushed, the scope ends
    /// there, with that failure. Otherwise the invocation runs; whatever it does to
    /// the host and whatever it returns, the scope ends as [`HostView::exit_frame`]
    /// says.
    pub open spec fn scope_returns(
        self,
        frame: FrameView,
        post: HostView<C>,
        r: Result<RawVal, HostError>,
    ) -> bool {
        match self.enter_frame(frame) {
            (h, Err(e)) => post == h && r == Err::<RawVal, HostError>(e),
            (h, Ok(rp)) => exists|mid: HostView<C>, res: Result<RawVal, HostError>| #[trigger]
                h.evolves_to(mid) && (post, r) == #[trigger] mid.exit_frame(rp, res),
        }
    }

    /// The code with which asking for the current contract fails: `InvalidAction`
    /// where no frame is on the stack, for then nothing may ask; `MissingValue` where
    /// the top frame is one of the host itself.
    pub open spec fn no_contract_code(self) -> ScErrorCode {
        if self.frames.len() == 0 {
            ScErrorCode::InvalidAction
        } else {
            ScErrorCode::MissingValue
        }
    }

    /// The message that goes with [`HostView::no_contract_code`].
    pub open spec fn no_contract_message(self) -> Seq<u8> {
        if self.frames.len() == 0 {
            no_contract_running_message()
        } else {
            no_contract_id_message()
        }
    }

    /// The contract that called the contract of the top frame: the contract of the
    /// frame below the top one.
    pub open spec fn invoking_contract(self) -> Result<Hash256, HostError> {
        if self.frames.len() < 2 {
            Err(HostError::spec_new(ScErrorType::Context, ScErrorCode::MissingValue))
        } else {
            match self.frames[self.frames.len() - 2].contract_id() {
                Some(id) => Ok(id),
                None => Err(HostError::spec_new(ScErrorType::Context, ScErrorCode::UnexpectedType)),
            }
        }
    }
}

/// What a unit of code that ran natively left behind when it gave up instead of
/// returning: the text it gave as its reason, if it gave one.
#[derive(Debug)]
pub struct PanicPayload {
    pub message: Option<String>,
}

/// What a unit of code handed back, with the reason it gave for giving up as plain
/// text.
pub open spec fn outcome_view(out: Result<Option<RawVal>, PanicPayload>) -> Result<
    Option<RawVal>,
    Option<Seq<char>>,
> {
    match out {
        Ok(v) => Ok(v),
        Err(p) => Err(p@),
    }
}

impl View for PanicPayload {
    type V = Option<Seq<char>>;

    open spec fn view(&self) -> Option<Seq<char>> {
        match self.message {
            Some(m) => Some(m@),
            None => None,
        }
    }
}

/// A set of functions that run natively, in the process of the host, on behalf of a
/// contract (or as the virtual machine, or as the built-in token contract).
///
/// `call` runs the function named `func`. It returns `Ok(Some(v))` when the function
/// returned `v`, `Ok(None)` when the set has no function of that name, and `Err` when
/// the function gave up. While it runs it may use the host as it likes, calls of
/// other contracts included, as long as it hands the host back as
/// [`HostView::evolves_to`] says: with the frame stack as it found it.
///
/// What more a set does is for the set to say: `call_returns` is its relation
/// between the host before a call, the host after it and what came back.
pub trait ContractFunctionSet: Sized {
    /// Whether a call of the function `func` with `args`, made on the host `pre`, can
    /// hand the host back as `post` and return `out`. A set that does not say what
    /// it does is taken to do anything.
    open spec fn call_returns(
        &self,
        func: Symbol,
        args: Seq<RawVal>,
        pre: HostView<Self>,
        post: HostView<Self>,
        out: Result<Option<RawVal>, Option<Seq<char>>>,
    ) -> bool {
        true
    }

    fn call(&self, func: &Symbol, host: &mut Host<Self>, args: &[RawVal]) -> (r: Result<
        Option<RawVal>,
        PanicPayload,
    >)
        ensures
            old(host)@.evolves_to(final(host)@),
            self.call_returns(*func, args@, old(host)@, final(host)@, outcome_view(r)),
    ;
}

/// The set without functions: whatever is called, it has no function of that name,
/// and it leaves the host alone. It is what a host is made with when nothing is to be
/// plugged into it.
#[derive(Clone, Copy, Debug, PartialEq, Eq, Structural)]
pub struct NoFunctions;

impl ContractFunctionSet for NoFunctions {
    open spec fn call_returns(
        &self,
        func: Symbol,
        args: Seq<RawVal>,
        pre: HostView<NoFunctions>,
        post: HostView<NoFunctions>,
        out: Result<Option<RawVal>, Option<Seq<char>>>,
    ) -> bool {
        post == pre && out == Ok::<Option<RawVal>, Option<Seq<char>>>(None)
    }

    fn call(&self, func: &Symbol, host: &mut Host<NoFunctions>, args: &[RawVal]) -> (r: Result<
        Option<RawVal>,
        PanicPayload,
    >) {
        proof {
            lemma_evolves_reflexive(host@);
        }
        Ok(None)
    }
}

impl<C: Copy> Host<C> {
    /// Pushes a new [`Frame`] on the context stack, returning a [`RollbackPoint`] such
    /// that if the operation fails, it can be used to roll the host back to the state
    /// it had before the frame was pushed.
    pub fn push_frame(&mut self, frame: Frame) -> (r: Result<RollbackPoint, HostError>)
        ensures
            final(self)@ == old(self)@.push_frame(frame@).0,
            match r {
                Ok(rp) => old(self)@.push_frame(frame@).1 == Ok::<RollbackPointView, HostError>(
                    rp@,
                ),
                Err(e) => old(self)@.push_frame(frame@).1 == Err::<RollbackPointView, HostError>(
                    e,
                ),
            },
    {
        let mut auth_snapshot: Option<AuthorizationManagerSnapshot> = None;
        if !self.authorization_manager().is_in_use() {
            match self.auth_push_frame(&frame) {
                Err(e) => {
                    return Err(e);
                },
                Ok(()) => {},
            }
            auth_snapshot = Some(self.authorization_manager().snapshot());
        }
        self.push_context(frame);
        Ok(
            RollbackPoint {
                storage: self.storage_map().clone(),
                events: self.events_len(),
                auth: auth_snapshot,
            },
        )
    }

    /// Pops a [`Frame`] off the context stack and, given a rollback point, rolls the
    /// host back to it.
    pub fn pop_frame(&mut self, orp: Option<RollbackPoint>) -> (r: Result<(), HostError>)
        requires
            old(self)@.frames.len() > 0,
        ensures
            final(self)@ == old(self)@.pop_frame(
                match orp {
                    Some(rp) => Some(rp@),
                    None => None,
                },
            ).0,
            r == old(self)@.pop_frame(
                match orp {
                    Some(rp) => Some(rp@),
                    None => None,
                },
            ).1,
    {
        let _ = self.pop_context();
        let available = !self.authorization_manager().is_in_use();
        if available {
            self.auth_pop_frame();
        }
        let popped = if self.context_len() == 0 && available {
            // When there are no frames left, emulate authentication for the
            // recording mode. This is a no-op for the enforcing mode.
            self.auth_maybe_emulate_authentication()
        } else {
            Ok(())
        };
        match orp {
            Some(rp) => {
                self.roll_back(rp);
            },
            None => {},
        }
        popped
    }

    /// Puts the host back to a rollback point.
    fn roll_back(&mut self, rp: RollbackPoint)
        ensures
            final(self)@ == old(self)@.rolled_back(rp@),
    {
        self.replace_storage_map(rp.storage);
        self.rollback_events(rp.events);
        match rp.auth {
            Some(auth_rp) => {
                self.auth_rollback(auth_rp);
            },
            None => {},
        }
    }

    /// Turns a success that carries an error code into a failure with that code.
    pub fn escalate(&mut self, res: Result<RawVal, HostError>) -> (r: Result<RawVal, HostError>)
        ensures
            final(self)@ == old(self)@.escalate(res).0,
            r == old(self)@.escalate(res).1,
    {
        match res {
            Ok(v) => match v.as_error() {
                Some(err) => Err(
                    self.error(err, "escalating Ok(Error) frame-exit to Err(Error)", &[]),
                ),
                None => Ok(v),
            },
            Err(e) => Err(e),
        }
    }

    /// Ends the scope of the top frame, given the result `res` of the invocation that
    /// ran in it: pops the frame, rolling back if the invocation failed or returned an
    /// error code or the pop itself failed, and hands back the result of the scope.
    pub fn exit_frame(&mut self, rp: RollbackPoint, res: Result<RawVal, HostError>) -> (r: Result<
        RawVal,
        HostError,
    >)
        requires
            old(self)@.frames.len() > 0,
        ensures
            final(self)@ == old(self)@.exit_frame(rp@, res).0,
            r == old(self)@.exit_frame(rp@, res).1,
    {
        let res = self.escalate(res);
        match res {
            Err(e) => {
                // Pop and rollback on error. The error of the invocation is the
                // error of the scope, whatever the pop says.
                let _ = self.pop_frame(Some(rp));
                Err(e)
            },
            Ok(v) => {
                // Just pop on success; but a pop that fails fails the scope, and a
                // scope that fails rolls back.
                match self.pop_frame(None) {
                    Err(e) => {
                        self.roll_back(rp);
                        Err(e)
                    },
                    Ok(()) => Ok(v),
                }
            },
        }
    }

    /// Pushes a [`Frame`], runs a closure, and then pops the frame, rolling back if the
    /// closure returned an error. Returns the result that the closure returned, or the
    /// error of the push, or, where the closure succeeded, the error of the pop. However
    /// it fails, the storage map and the event log are then what they were before.
    ///
    /// The guard of the frame is charged; what the closure does is for the closure to
    /// charge. The closure must hand the host back with the frame stack as it found
    /// it, which is what every operation of the host does.
    pub fn with_frame<F>(&mut self, frame: Frame, f: F) -> (r: Result<RawVal, HostError>) where
        F: FnOnce(&mut Host<C>) -> Result<RawVal, HostError>,

        requires
            forall|h: &mut Host<C>| old(self)@.enters(frame@, h@) ==> call_requires(f, (h,)),
            forall|h: &mut Host<C>, out: Result<RawVal, HostError>|
                call_ensures(f, (h,), out) ==> h@.evolves_to(final(h)@),
        ensures
            match old(self)@.enter_frame(frame@) {
                (h, Err(e)) => final(self)@ == h && r == Err::<RawVal, HostError>(e),
                (h, Ok(rp)) => exists|inner: &mut Host<C>, res: Result<RawVal, HostError>|
                    inner@ == h && #[trigger] call_ensures(f, (inner,), res) && (final(self)@, r)
                        == final(inner)@.exit_frame(rp, res),
            },
            old(self)@.scope_returns(frame@, final(self)@, r),
            old(self)@.evolves_to(final(self)@),
            final(self)@.frames == old(self)@.frames,
            r matches Ok(v) ==> v.spec_as_error() is None,
            r is Err ==> {
                &&& final(self)@.storage == old(self)@.storage
                &&& final(self)@.events == old(self)@.events
            },
    {
        let ghost frame_view = frame@;
        match self.charge_budget(ContractCostType::GuardFrame, None) {
            Err(e) => {
                return Err(e);
            },
            Ok(()) => {},
        }
        let rp = match self.push_frame(frame) {
            Err(e) => {
                proof {
                    lemma_enter_frame_evolves(old(self)@, frame_view);
                }
                return Err(e);
            },
            Ok(rp) => rp,
        };
        let ghost entered = self@;
        let res = f(self);
        let ghost mid = self@;
        let r = self.exit_frame(rp, res);
        proof {
            assert(entered.evolves_to(mid) && (self@, r) == mid.exit_frame(rp@, res));
            assert(old(self)@.scope_returns(frame_view, self@, r));
            lemma_scope_returns(old(self)@, frame_view, self@, r);
        }
        r
    }

    /// Applies a function to the top [`Frame`] of the context stack. Fails with
    /// `Context`/`InvalidAction` if the stack is empty, otherwise returns the result of
    /// the function.
    pub fn with_current_frame<F, U>(&mut self, f: F) -> (r: Result<U, HostError>) where
        F: FnOnce(&Frame) -> Result<U, HostError>,

        requires
            forall|frame: &Frame|
                old(self)@.frames.len() > 0 && frame@ == old(self)@.frames.last() ==> call_requires(
                    f,
                    (frame,),
                ),
        ensures
            old(self)@.frames.len() == 0 ==> r == Err::<U, HostError>(
                HostError::spec_new(ScErrorType::Context, ScErrorCode::InvalidAction),
            ) && final(self)@ == old(self)@.error(
                Error::spec_new(ScErrorType::Context, ScErrorCode::InvalidAction),
                no_contract_running_message(),
                Seq::empty(),
            ),
            old(self)@.frames.len() > 0 ==> final(self)@ == old(self)@ && exists|frame: &Frame|
                frame@ == old(self)@.frames.last() && call_ensures(f, (frame,), r),
    {
        let n = self.context_len();
        if n == 0 {
            return Err(
                self.err(ScErrorType::Context, ScErrorCode::InvalidAction, "no contract running", &[]),
            );
        }
        let frame = self.context_frame(n - 1);
        let r = f(frame);
        r
    }

    /// Same as [`Host::with_current_frame`] but passes `None` when there is no current
    /// frame, rather than failing.
    pub fn with_current_frame_opt<F, U>(&self, f: F) -> (r: Result<U, HostError>) where
        F: FnOnce(Option<&Frame>) -> Result<U, HostError>,

        requires
            self@.frames.len() == 0 ==> call_requires(f, (None::<&Frame>,)),
            forall|frame: &Frame|
                self@.frames.len() > 0 && frame@ == self@.frames.last() ==> call_requires(
                    f,
                    (Some(frame),),
                ),
        ensures
            self@.frames.len() == 0 ==> call_ensures(f, (None::<&Frame>,), r),
            self@.frames.len() > 0 ==> exists|frame: &Frame|
                frame@ == self@.frames.last() && call_ensures(f, (Some(frame),), r),
    {
        let n = self.context_len();
        if n == 0 {
            f(None)
        } else {
            let frame = self.context_frame(n - 1);
            let r = f(Some(frame));
            r
        }
    }

    /// Returns the contract ID of the frame at the top of the context stack, `None` if
    /// that frame is one of the host itself. Fails with `Context`/`InvalidAction` if the
    /// context stack is empty.
    pub fn get_current_contract_id_opt_internal(&mut self) -> (r: Result<
        Option<Hash256>,
        HostError,
    >)
        ensures
            old(self)@.frames.len() > 0 ==> final(self)@ == old(self)@ && r == Ok::<
                Option<Hash256>,
                HostError,
            >(old(self)@.current_contract_id()),
            old(self)@.frames.len() == 0 ==> r == Err::<Option<Hash256>, HostError>(
                HostError::spec_new(ScErrorType::Context, ScErrorCode::InvalidAction),
            ) && final(self)@ == old(self)@.error(
                Error::spec_new(ScErrorType::Context, ScErrorCode::InvalidAction),
                no_contract_running_message(),
                Seq::empty(),
            ),
    {
        let id_of = |frame: &Frame| -> (r: Result<Option<Hash256>, HostError>)
            ensures
                r is Ok,
                r->Ok_0 == frame@.contract_id(),
            { Ok(frame.contract_id()) };
        self.with_current_frame(id_of)
    }

    /// Returns the contract ID of the frame at the top of the context stack. Fails
    /// with `Context`/`InvalidAction` if the context stack is empty, and with
    /// `Context`/`MissingValue` if it has a frame of the host itself at its top.
    pub fn get_current_contract_id_internal(&mut self) -> (r: Result<Hash256, HostError>)
        ensures
            match old(self)@.current_contract_id() {
                Some(id) => final(self)@ == old(self)@ && r == Ok::<Hash256, HostError>(id),
                None => r == Err::<Hash256, HostError>(
                    HostError::spec_new(ScErrorType::Context, old(self)@.no_contract_code()),
                ) && final(self)@ == old(self)@.error(
                    Error::spec_new(ScErrorType::Context, old(self)@.no_contract_code()),
                    old(self)@.no_contract_message(),
                    Seq::empty(),
                ),
            },
    {
        match self.get_current_contract_id_opt_internal() {
            Err(e) => Err(e),
            Ok(Some(id)) => Ok(id),
            Ok(None) => Err(
                self.err(
                    ScErrorType::Context,
                    ScErrorCode::MissingValue,
                    "Current context has no contract ID",
                    &[],
                ),
            ),
        }
    }

    /// Returns the contract ID of the frame below the top one: the contract that
    /// called the current one. Fails with `Context`/`MissingValue` if there is no such
    /// frame, and with `Context`/`UnexpectedType` if it is a frame of the host itself.
    pub fn get_invoking_contract_internal(&mut self) -> (r: Result<Hash256, HostError>)
        ensures
            r == old(self)@.invoking_contract(),
            match old(self)@.invoking_contract() {
                Ok(_) => final(self)@ == old(self)@,
                Err(e) => final(self)@ == old(self)@.error(
                    e.error,
                    if old(self)@.frames.len() < 2 {
                        no_invoker_message()
                    } else {
                        invoker_not_contract_message()
                    },
                    Seq::empty(),
                ),
            },
    {
        let n = self.context_len();
        // the previous frame must exist and must be a contract
        if n < 2 {
            return Err(
                self.err(
                    ScErrorType::Context,
                    ScErrorCode::MissingValue,
                    "no frames to derive the invoker from",
                    &[],
                ),
            );
        }
        match self.context_frame(n - 2).contract_id() {
            Some(id) => Ok(id),
            None => Err(
                self.err(
                    ScErrorType::Context,
                    ScErrorCode::UnexpectedType,
                    "invoker is not a contract",
                    &[],
                ),
            ),
        }
    }

    /// Pushes a test contract [`Frame`], runs a closure, and then pops the frame,
    /// rolling back if the closure returned an error. Returns the result that the
    /// closure returned (or any error caused during the frame push/pop).
    pub fn with_test_contract_frame<F>(&mut self, id: Hash256, func: Symbol, f: F) -> (r: Result<
        RawVal,
        HostError,
    >) where F: FnOnce(&mut Host<C>) -> Result<RawVal, HostError>
        requires
            forall|h: &mut Host<C>|
                old(self)@.enters(test_contract_frame(id, func, Seq::empty()), h@) ==> call_requires(
                    f,
                    (h,),
                ),
            forall|h: &mut Host<C>, out: Result<RawVal, HostError>|
                call_ensures(f, (h,), out) ==> h@.evolves_to(final(h)@),
        ensures
            match old(self)@.enter_frame(test_contract_frame(id, func, Seq::empty())) {
                (h, Err(e)) => final(self)@ == h && r == Err::<RawVal, HostError>(e),
                (h, Ok(rp)) => exists|inner: &mut Host<C>, res: Result<RawVal, HostError>|
                    inner@ == h && #[trigger] call_ensures(f, (inner,), res) && (final(self)@, r)
                        == final(inner)@.exit_frame(rp, res),
            },
            old(self)@.scope_returns(test_contract_frame(id, func, Seq::empty()), final(self)@, r),
            old(self)@.evolves_to(final(self)@),
            final(self)@.frames == old(self)@.frames,
            r matches Ok(v) ==> v.spec_as_error() is None,
            r is Err ==> {
                &&& final(self)@.storage == old(self)@.storage
                &&& final(self)@.events == old(self)@.events
            },
    {
        self.with_frame(Frame::TestContract(TestContractFrame::new(id, func, Vec::new())), f)
    }
}

/// The frame of a native contract, with no error recorded.
pub open spec fn test_contract_frame(id: Hash256, func: Symbol, args: Seq<RawVal>) -> FrameView {
    FrameView::TestContract { contract_id: id, func, args, panic: None }
}

/// Reporting to the trace touches neither the frames, nor the storage map, nor the
/// budget, nor the authorisation manager; it only adds objects and events.
pub proof fn lemma_error_evolves<C>(h: HostView<C>, error: Error, msg: Seq<u8>, args: Seq<RawVal>)
    ensures
        h.evolves_to(h.error(error, msg, args)),
        h.error(error, msg, args).frames == h.frames,
        h.error(error, msg, args).storage == h.storage,
        h.error(error, msg, args).budget == h.budget,
        h.error(error, msg, args).auth == h.auth,
        h.error(error, msg, args).diagnostic_level == h.diagnostic_level,
        h.error(error, msg, args).contracts == h.contracts,
        h.error(error, msg, args).vm == h.vm,
        h.error(error, msg, args).token == h.token,
{
}

/// The relation [`HostView::evolves_to`] holds of a host and itself, and of the
/// two ends of any two steps of which it holds.
pub proof fn lemma_evolves_reflexive<C>(a: HostView<C>)
    ensures
        a.evolves_to(a),
{
}

pub proof fn lemma_evolves_transitive<C>(a: HostView<C>, b: HostView<C>, c: HostView<C>)
    requires
        a.evolves_to(b),
        b.evolves_to(c),
    ensures
        a.evolves_to(c),
{
    assert forall|i: int| 0 <= i < a.frames.len() - 1 implies #[trigger] c.frames[i]
        == a.frames[i] by {
    }
}

/// Charging the guard of a frame and pushing the frame leaves the frames below as
/// they were, and adds no object and no event.
pub proof fn lemma_enter_frame_evolves<C>(h: HostView<C>, frame: FrameView)
    ensures
        h.enter_frame(frame).1 is Err ==> h.evolves_to(h.enter_frame(frame).0) && h.enter_frame(
            frame,
        ).0.storage == h.storage && h.enter_frame(frame).0.events == h.events,
        h.enter_frame(frame).1 matches Ok(rp) ==> {
            &&& h.enter_frame(frame).0.frames == h.frames.push(frame)
            &&& h.enter_frame(frame).0.objects == h.objects
            &&& h.enter_frame(frame).0.events == h.events
            &&& h.enter_frame(frame).0.storage == h.storage
            &&& h.enter_frame(frame).0.auth.recording == h.auth.recording
            &&& rp.storage == h.storage
            &&& rp.events == h.events.len()
        },
{
}

/// Stack balance and atomicity of a guarded scope.
///
/// However the scope ends, the frame stack is what it was before the scope, and
/// every object and event of before is still there. A scope that succeeds does not
/// return an error code. A scope that fails, for whatever reason, leaves the storage
/// map and the event log exactly as they were before it.
pub proof fn lemma_scope_returns<C>(
    pre: HostView<C>,
    frame: FrameView,
    post: HostView<C>,
    r: Result<RawVal, HostError>,
)
    requires
        pre.scope_returns(frame, post, r),
    ensures
        post.frames == pre.frames,
        pre.evolves_to(post),
        r matches Ok(v) ==> v.spec_as_error() is None,
        r is Err ==> post.storage == pre.storage && post.events == pre.events,
{
    lemma_enter_frame_evolves(pre, frame);
    match pre.enter_frame(frame) {
        (h, Err(e)) => {},
        (h, Ok(rp)) => {
            let (mid, res) = choose|mid: HostView<C>, res: Result<RawVal, HostError>| #[trigger]
                h.evolves_to(mid) && (post, r) == #[trigger] mid.exit_frame(rp, res);
            assert(h.frames.drop_last() =~= pre.frames);
            lemma_exit_frame(pre, h, rp, mid, res);
        },
    }
}

/// What the end of a scope does to a host `mid` that evolved from the host `entered`
/// in which the scope began, `entered` being `pre` with one more frame and the
/// rollback point `rp` taken of it.
pub proof fn lemma_exit_frame<C>(
    pre: HostView<C>,
    entered: HostView<C>,
    rp: RollbackPointView,
    mid: HostView<C>,
    res: Result<RawVal, HostError>,
)
    requires
        entered.frames.len() == pre.frames.len() + 1,
        entered.frames.drop_last() == pre.frames,
        entered.objects == pre.objects,
        entered.events == pre.events,
        entered.auth.recording == pre.auth.recording,
        rp.storage == pre.storage,
        rp.events == pre.events.len(),
        entered.evolves_to(mid),
    ensures
        mid.exit_frame(rp, res).0.frames == pre.frames,
        pre.evolves_to(mid.exit_frame(rp, res).0),
        mid.exit_frame(rp, res).1 matches Ok(v) ==> v.spec_as_error() is None,
        mid.exit_frame(rp, res).1 is Err ==> mid.exit_frame(rp, res).0.storage == pre.storage
            && mid.exit_frame(rp, res).0.events == pre.events,
{
    let (h1, res1) = mid.escalate(res);
    if res is Ok && res->Ok_0.spec_as_error() is Some {
        lemma_error_evolves(mid, res->Ok_0.spec_as_error()->0, escalation_message(), Seq::empty());
    }
    assert(mid.evolves_to(h1));
    assert(h1.frames == mid.frames);
    assert(h1.frames.drop_last() =~= pre.frames);
    let (post, r) = mid.exit_frame(rp, res);
    assert(post.frames == pre.frames);
    assert(pre.events.is_prefix_of(h1.events));
    lemma_rollback_restores(pre.events, h1.events);
    lemma_rollback_is_prefix(h1.events, rp.events);
}

/// The result of a scope is the result of its invocation.
///
/// An invocation that fails fails the scope with its own error, and one that returns
/// an error code fails the scope with that code, whatever happens while the frame is
/// popped. An invocation that returns another value `v` has the scope return `v`,
/// unless popping the frame fails; then the scope fails with the error of the pop.
/// Popping a frame that is not the last one does not fail.
pub proof fn lemma_scope_result<C>(mid: HostView<C>, rp: RollbackPointView, res: Result<RawVal, HostError>)
    requires
        mid.frames.len() > 0,
    ensures
        res matches Err(e) ==> mid.exit_frame(rp, res).1 == Err::<RawVal, HostError>(e),
        res matches Ok(v) ==> (v.spec_as_error() matches Some(e) ==> mid.exit_frame(rp, res).1
            == Err::<RawVal, HostError>(HostError { error: e })),
        res matches Ok(v) ==> (v.spec_as_error() is None ==> mid.exit_frame(rp, res).1
            == match mid.pop_frame(None).1 {
            Err(e) => Err::<RawVal, HostError>(e),
            Ok(_) => Ok::<RawVal, HostError>(v),
        }),
        mid.frames.len() > 1 ==> mid.pop_frame(None).1 is Ok,
{
}

/// Escalation: a scope whose invocation returns an error code as its value ends as
/// the scope whose invocation fails with that code. Both fail with that code as their
/// error, and both leave the same frames, the storage map of the rollback point, the
/// same event log, budget and authorisation manager. With diagnostics off they leave
/// the same host. (With diagnostics on, the first has reported the escalation to the
/// trace, which leaves objects behind.)
pub proof fn lemma_escalation<C>(h: HostView<C>, rp: RollbackPointView, e: Error)
    requires
        h.frames.len() > 0,
        rp.events <= h.events.len(),
    ensures
        ({
            let (p1, r1) = h.exit_frame(rp, Ok(RawVal::Error(e)));
            let (p2, r2) = h.exit_frame(rp, Err(HostError { error: e }));
            &&& r1 == Err::<RawVal, HostError>(HostError { error: e })
            &&& r2 == r1
            &&& p1.frames == p2.frames
            &&& p1.storage == rp.storage
            &&& p2.storage == rp.storage
            &&& p1.events == p2.events
            &&& p1.budget == p2.budget
            &&& p1.auth == p2.auth
            &&& !h.is_debug() ==> p1 == p2
        }),
{
    lemma_error_evolves(h, e, escalation_message(), Seq::empty());
    let h1 = h.error(e, escalation_message(), Seq::empty());
    assert(h.events.is_prefix_of(h1.events));
    assert(spec_rollback(h1.events, rp.events) =~= spec_rollback(h.events, rp.events));
}

/// Every step that a frame may take, and every sequence of such steps, keeps what
/// the object store holds: a handle that was issued leads to the same object
/// afterwards.
pub proof fn lemma_evolution_keeps_objects<C>(pre: HostView<C>, post: HostView<C>, obj: Object)
    requires
        pre.evolves_to(post),
        pre.object_at(obj) is Ok,
    ensures
        post.keeps_objects_of(pre),
        post.object_at(obj) == pre.object_at(obj),
{
}

/// No step of the frame stack takes an object away or changes one.
pub proof fn lemma_frame_steps_keep_objects<C>(h: HostView<C>)
    ensures
        forall|ty: ContractCostType, input: Option<u64>|
            (#[trigger] h.charge(ty, input)).0.keeps_objects_of(h),
        forall|frame: FrameView| (#[trigger] h.push_frame(frame)).0.keeps_objects_of(h),
        forall|orp: Option<RollbackPointView>| (#[trigger] h.pop_frame(orp)).0.keeps_objects_of(h),
        forall|res: Result<RawVal, HostError>| (#[trigger] h.escalate(res)).0.keeps_objects_of(h),
        forall|rp: RollbackPointView, res: Result<RawVal, HostError>|
            (#[trigger] h.exit_frame(rp, res)).0.keeps_objects_of(h),
{
    assert forall|res: Result<RawVal, HostError>|
        (#[trigger] h.escalate(res)).0.keeps_objects_of(h) by {
        if res is Ok && res->Ok_0.spec_as_error() is Some {
            lemma_error_evolves(
                h,
                res->Ok_0.spec_as_error()->0,
                escalation_message(),
                Seq::empty(),
            );
        }
    }
    assert forall|rp: RollbackPointView, res: Result<RawVal, HostError>|
        (#[trigger] h.exit_frame(rp, res)).0.keeps_objects_of(h) by {
        let escalated = h.escalate(res);
        assert(escalated.0.keeps_objects_of(h));
        assert(escalated.0.pop_frame(
            if escalated.1 is Err {
                Some(rp)
            } else {
                None
            },
        ).0.objects == escalated.0.objects);
    }
}

} // verus!
