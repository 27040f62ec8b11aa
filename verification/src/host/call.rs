//! Calls of contracts: the re-entry policy that every call is held to, the report of
//! the call to the trace, and the dispatch to the unit of code that runs it.
use crate::host::frame::{
    lemma_enter_frame_evolves, lemma_error_evolves, lemma_evolves_transitive, lemma_scope_result,
    lemma_scope_returns, outcome_view,
    test_contract_frame, ContractFunctionSet, ContractReentryMode, Frame, FrameView, PanicPayload,
    TestContractFrame, Vm,
};
use crate::host::{Host, HostView};
use crate::host_object::rawvals_clone;
use crate::storage::{contract_executable_key, spec_live};
use crate::val::{BytesObject, Error, Hash256, HostError, RawVal, ScErrorCode, ScErrorType, Symbol};
use crate::xdr::{bytes_clone, LedgerEntry, LedgerKey, LedgerKeyView, ScContractExecutable, ScVal};
use std::rc::Rc;
use vstd::prelude::*;
use vstd::string::*;
use vstd::utf8::encode_utf8;

verus! {

/// The message for a call of a reserved function from outside the host.
pub open spec fn reserved_function_message() -> Seq<u8> {
    "can't invoke a reserved function directly".spec_bytes()
}

/// The message for a call that would re-enter a contract against the policy.
pub open spec fn reentry_message() -> Seq<u8> {
    "Contract re-entry is not allowed".spec_bytes()
}

/// The message for a call of a function that the called unit does not have.
pub open spec fn unknown_function_message() -> Seq<u8> {
    "calling unknown contract function".spec_bytes()
}

/// The message for a unit that gave up.
pub open spec fn caught_error_message() -> Seq<u8> {
    "caught error from function".spec_bytes()
}

/// The message that holds the reason a unit gave for giving up.
pub open spec fn caught_panic_message(text: Seq<char>) -> Seq<u8> {
    encode_utf8("caught panic '"@ + text + "' from contract function"@)
}

/// The message for a contract without an executable in storage.
pub open spec fn missing_executable_message() -> Seq<u8> {
    "contract executable missing".spec_bytes()
}

/// The message for an entry that should hold an executable and does not.
pub open spec fn bad_executable_message() -> Seq<u8> {
    "ledger entry is not a contract executable".spec_bytes()
}

/// The message for code that is not in storage.
pub open spec fn missing_code_message() -> Seq<u8> {
    "contract code missing".spec_bytes()
}

/// The message for code that nothing can run.
pub open spec fn no_vm_message() -> Seq<u8> {
    "no virtual machine to run contract code".spec_bytes()
}

/// The message for a call of the built-in token contract when none is there.
pub open spec fn no_token_message() -> Seq<u8> {
    "no built-in token contract".spec_bytes()
}

/// Whether every frame above position `i` is a frame of the host itself, so that
/// the frame at `i`, if it is a contract frame, is the most recent one.
pub open spec fn is_last_non_host_frame(frames: Seq<FrameView>, i: int) -> bool {
    forall|j: int| i < j < frames.len() ==> (#[trigger] frames[j]).contract_id() is None
}

/// The re-entry policy: whether contract `id` may be called while `frames` are on
/// the stack.
///
/// Under `Allowed` it always may. Under `Prohibited` it may only if no frame on the
/// stack runs it. Under `SelfAllowed` a frame that runs it must be the most recent
/// contract frame: a contract may call itself, but not through another contract.
pub open spec fn reentry_allowed(
    frames: Seq<FrameView>,
    id: Hash256,
    mode: ContractReentryMode,
) -> bool {
    mode == ContractReentryMode::Allowed || forall|i: int|
        0 <= i < frames.len() && (#[trigger] frames[i]).contract_id() == Some(id) ==> mode
            == ContractReentryMode::SelfAllowed && is_last_non_host_frame(frames, i)
}

/// Why a call cannot be resolved: the category and the code of the failure, and the
/// message that is reported with it.
pub ghost struct Unresolved {
    pub type_: ScErrorType,
    pub code: ScErrorCode,
    pub msg: Seq<u8>,
}

impl<C> HostView<C> {
    /// The error that was recorded in the top frame, if any.
    pub open spec fn captured_error(self) -> Option<Error> {
        if self.frames.len() == 0 {
            None
        } else {
            self.frames.last().captured_error()
        }
    }

    /// The host after a unit of code that ran in the top frame ended with `out`, and
    /// the result of the invocation.
    ///
    /// A value that was returned is the result; if `trace_return` is set the return is
    /// reported to the trace first, as far as that can be done: a report that cannot be
    /// stored is left out, and the value is the result all the same. A unit
    /// without the function fails the invocation with `Context`/`MissingValue`. When
    /// the unit gave up, the invocation fails with the error recorded in the frame, if
    /// there is one, and with the unknown error otherwise; in the latter case the
    /// reason that the unit gave, if it gave one, is reported to the trace while
    /// diagnostics are on. Every failure raised here is reported to the trace.
    pub open spec fn native_outcome(
        self,
        id: Hash256,
        func: Symbol,
        out: Result<Option<RawVal>, Option<Seq<char>>>,
        trace_return: bool,
    ) -> (HostView<C>, Result<RawVal, HostError>) {
        match out {
            Ok(Some(v)) => if trace_return {
                self.after_contract_fn(id, func, Ok(v))
            } else {
                (self, Ok(v))
            },
            Ok(None) => (
                self.error(
                    Error::spec_new(ScErrorType::Context, ScErrorCode::MissingValue),
                    unknown_function_message(),
                    seq![RawVal::Symbol(func)],
                ),
                Err(HostError::spec_new(ScErrorType::Context, ScErrorCode::MissingValue)),
            ),
            Err(payload) => match self.captured_error() {
                Some(err) => (
                    self.error(err, caught_error_message(), Seq::empty()),
                    Err(HostError { error: err }),
                ),
                None => {
                    let h1 = if self.is_debug() && payload is Some {
                        self.error(
                            Error::spec_unknown(),
                            caught_panic_message(payload->0),
                            seq![RawVal::Symbol(func)],
                        )
                    } else {
                        self
                    };
                    (
                        h1.error(Error::spec_unknown(), caught_error_message(), Seq::empty()),
                        Err(HostError { error: Error::spec_unknown() }),
                    )
                },
            },
        }
    }

    /// The host after a call ended with `res`, and the result of the call, which is
    /// `res`. A success is reported to the trace, as far as that can be done: a report
    /// that cannot be stored is left out and the host stays as it was, for a report
    /// never fails the call that it is about. Nothing is reported for a failure here,
    /// because whoever raised it has reported it.
    pub open spec fn after_contract_fn(
        self,
        id: Hash256,
        func: Symbol,
        res: Result<RawVal, HostError>,
    ) -> (HostView<C>, Result<RawVal, HostError>) {
        match res {
            Ok(v) => (self.fn_return_diagnostics(id, func, v).0, Ok(v)),
            Err(e) => (self, Err(e)),
        }
    }

    /// The executable of contract `id`, as storage has it: a contract without one is
    /// `Storage`/`MissingValue`, and an entry that holds something else is
    /// `Storage`/`UnexpectedType`.
    pub open spec fn executable_of(self, id: Hash256) -> Result<ScContractExecutable, Unresolved> {
        match spec_live(self.storage, contract_executable_key(id)) {
            None => Err(
                Unresolved {
                    type_: ScErrorType::Storage,
                    code: ScErrorCode::MissingValue,
                    msg: missing_executable_message(),
                },
            ),
            Some(entry) => match entry.executable() {
                None => Err(
                    Unresolved {
                        type_: ScErrorType::Storage,
                        code: ScErrorCode::UnexpectedType,
                        msg: bad_executable_message(),
                    },
                ),
                Some(e) => Ok(e),
            },
        }
    }

    /// The code that storage keeps under `hash`: no entry is `Storage`/`MissingValue`,
    /// and an entry that is not code is `Storage`/`UnexpectedType`.
    pub open spec fn code_of(self, hash: Hash256) -> Result<Seq<u8>, Unresolved> {
        match spec_live(self.storage, LedgerKeyView::ContractCode { hash }) {
            None => Err(
                Unresolved {
                    type_: ScErrorType::Storage,
                    code: ScErrorCode::MissingValue,
                    msg: missing_code_message(),
                },
            ),
            Some(entry) => match entry.code() {
                None => Err(
                    Unresolved {
                        type_: ScErrorType::Storage,
                        code: ScErrorCode::UnexpectedType,
                        msg: missing_code_message(),
                    },
                ),
                Some(code) => Ok(code),
            },
        }
    }

    /// What a call of `func` on contract `id` runs, and the frame in which it runs.
    ///
    /// The executable of the contract is looked up. For code, the code is looked up
    /// and run by the virtual machine (`WasmVm`/`MissingValue` if there is none). For
    /// the built-in token contract, that contract is run (`Context`/`MissingValue` if
    /// there is none).
    pub open spec fn resolve(self, id: Hash256, func: Symbol, args: Seq<RawVal>) -> Result<
        (C, FrameView),
        Unresolved,
    > {
        match self.executable_of(id) {
            Err(u) => Err(u),
            Ok(ScContractExecutable::WasmRef(hash)) => match self.code_of(hash) {
                Err(u) => Err(u),
                Ok(code) => match self.vm {
                    None => Err(
                        Unresolved {
                            type_: ScErrorType::WasmVm,
                            code: ScErrorCode::MissingValue,
                            msg: no_vm_message(),
                        },
                    ),
                    Some(machine) => Ok(
                        (machine, FrameView::ContractVM { contract_id: id, code, func, args }),
                    ),
                },
            },
            Ok(ScContractExecutable::Token) => match self.token {
                None => Err(
                    Unresolved {
                        type_: ScErrorType::Context,
                        code: ScErrorCode::MissingValue,
                        msg: no_token_message(),
                    },
                ),
                Some(token) => Ok((token, FrameView::Token { contract_id: id, func, args })),
            },
        }
    }

    /// What a call of `func` on contract `id` runs, and the frame in which it runs, if
    /// the call finds anything to run: the contract that is registered to run natively
    /// under `id`, if there is one, and what storage leads to otherwise.
    pub open spec fn target(self, id: Hash256, func: Symbol, args: Seq<RawVal>) -> Option<
        (C, FrameView),
    > {
        if self.registered(id) is Some {
            Some((self.registered(id)->0, test_contract_frame(id, func, args)))
        } else {
            match self.resolve(id, func, args) {
                Ok(found) => Some(found),
                Err(_) => None,
            }
        }
    }

    /// Whether `post` and `r` are the host and the result after a call, made on this
    /// host, could not be resolved for the reason `u`: the failure is reported to the
    /// trace and handed back.
    pub open spec fn unresolved<T>(self, u: Unresolved, post: HostView<C>, r: Result<T, HostError>) -> bool {
        post == self.error(Error::spec_new(u.type_, u.code), u.msg, Seq::empty()) && r == Err::<
            T,
            HostError,
        >(HostError::spec_new(u.type_, u.code))
    }

    /// A failure of the given category and code, raised on this host with message
    /// `msg`: whether `post` and `r` are the host and the result after it.
    pub open spec fn fails_with(
        self,
        type_: ScErrorType,
        code: ScErrorCode,
        msg: Seq<u8>,
        args: Seq<RawVal>,
        post: HostView<C>,
        r: Result<RawVal, HostError>,
    ) -> bool {
        post == self.error(Error::spec_new(type_, code), msg, args) && r == Err::<
            RawVal,
            HostError,
        >(HostError::spec_new(type_, code))
    }

}

impl<C: ContractFunctionSet> HostView<C> {
    /// Whether a guarded scope for `frame` in which `unit` runs the function `func` on
    /// behalf of contract `id`, started on this host, can end with the host `post` and
    /// the result `r`.
    ///
    /// If the guard cannot be charged or the frame cannot be pushed, the scope ends
    /// there, with that failure. Otherwise `unit` is called with `func` and `args` on
    /// the host as it is then; what it hands back decides the result of the invocation
    /// as [`HostView::native_outcome`] says, and the scope ends as
    /// [`HostView::exit_frame`] says.
    pub open spec fn unit_scope_returns(
        self,
        unit: C,
        frame: FrameView,
        id: Hash256,
        func: Symbol,
        args: Seq<RawVal>,
        trace_return: bool,
        post: HostView<C>,
        r: Result<RawVal, HostError>,
    ) -> bool {
        match self.enter_frame(frame) {
            (h, Err(e)) => post == h && r == Err::<RawVal, HostError>(e),
            (h, Ok(rp)) => exists|
                called: HostView<C>,
                out: Result<Option<RawVal>, Option<Seq<char>>>,
            | #[trigger]
                unit.call_returns(func, args, h, called, out) && h.evolves_to(called) && (post, r)
                    == called.native_outcome(id, func, out, trace_return).0.exit_frame(
                    rp,
                    called.native_outcome(id, func, out, trace_return).1,
                ),
        }
    }

    /// Whether a call of `func` on contract `id` that is resolved through storage can
    /// end with the host `post` and the result `r`.
    ///
    /// What is to run is resolved as [`HostView::resolve`] says. A call that cannot be
    /// resolved fails with the failure that belongs to the reason, which is reported
    /// to the trace. Otherwise the unit runs in a guarded scope for its frame; see
    /// [`HostView::unit_scope_returns`] for such a scope.
    pub open spec fn call_contract_fn_returns(
        self,
        id: Hash256,
        func: Symbol,
        args: Seq<RawVal>,
        post: HostView<C>,
        r: Result<RawVal, HostError>,
    ) -> bool {
        match self.resolve(id, func, args) {
            Err(u) => self.fails_with(u.type_, u.code, u.msg, Seq::empty(), post, r),
            Ok((unit, frame)) => self.unit_scope_returns(unit, frame, id, func, args, false, post, r),
        }
    }

    /// Whether the dispatch of a call of `func` on contract `id`, once it is allowed
    /// and announced, can end with the host `post` and the result `r`: a contract that
    /// is registered to run natively runs in a guarded scope; any other is resolved
    /// through storage, and its return is reported to the trace.
    pub open spec fn dispatch_returns(
        self,
        id: Hash256,
        func: Symbol,
        args: Seq<RawVal>,
        post: HostView<C>,
        r: Result<RawVal, HostError>,
    ) -> bool {
        if self.registered(id) is Some {
            self.unit_scope_returns(
                self.registered(id)->0,
                test_contract_frame(id, func, args),
                id,
                func,
                args,
                true,
                post,
                r,
            )
        } else {
            exists|mid: HostView<C>, res: Result<RawVal, HostError>| #[trigger]
                self.call_contract_fn_returns(id, func, args, mid, res) && (post, r)
                    == mid.after_contract_fn(id, func, res)
        }
    }

    /// Whether a call of `func` on contract `id` with `args`, made on this host, can
    /// end with the host `post` and the result `r`.
    ///
    /// A reserved function can only be called by the host itself; a call that
    /// re-enters a contract against `mode` is refused. Both fail the call with
    /// `Context`/`InvalidAction` before anything else happens. Then the call is
    /// reported to the trace, as far as that can be done, and dispatched: a report that
    /// cannot be stored is left out, and the call goes on from the host as it was.
    pub open spec fn call_returns(
        self,
        id: Hash256,
        func: Symbol,
        args: Seq<RawVal>,
        mode: ContractReentryMode,
        internal_host_call: bool,
        post: HostView<C>,
        r: Result<RawVal, HostError>,
    ) -> bool {
        if !internal_host_call && func.spec_is_reserved() {
            self.fails_with(
                ScErrorType::Context,
                ScErrorCode::InvalidAction,
                reserved_function_message(),
                seq![RawVal::Symbol(func)],
                post,
                r,
            )
        } else if !reentry_allowed(self.frames, id, mode) {
            self.fails_with(
                ScErrorType::Context,
                ScErrorCode::InvalidAction,
                reentry_message(),
                Seq::empty(),
                post,
                r,
            )
        } else {
            self.fn_call_diagnostics(id, func, args).0.dispatch_returns(id, func, args, post, r)
        }
    }
}

impl<C: ContractFunctionSet + Copy> Host<C> {
    /// Whether contract `id` may be called under `mode`, given the frames on the stack.
    pub fn check_reentry(&self, id: &Hash256, mode: ContractReentryMode) -> (r: bool)
        ensures
            r == reentry_allowed(self@.frames, *id, mode),
    {
        if matches!(mode, ContractReentryMode::Allowed) {
            return true;
        }
        let mut is_last_non_host_frame: bool = true;
        let mut i: usize = self.context_len();
        while i > 0
            invariant
                i <= self@.frames.len(),
                mode != ContractReentryMode::Allowed,
                is_last_non_host_frame == self::is_last_non_host_frame(self@.frames, i as int - 1),
                forall|j: int|
                    i <= j < self@.frames.len() && (#[trigger] self@.frames[j]).contract_id()
                        == Some(*id) ==> mode == ContractReentryMode::SelfAllowed
                        && self::is_last_non_host_frame(self@.frames, j),
            decreases i,
        {
            i -= 1;
            match self.context_frame(i).contract_id() {
                None => {},
                Some(exist_id) => {
                    if *id == exist_id {
                        if matches!(mode, ContractReentryMode::SelfAllowed) && is_last_non_host_frame {
                            is_last_non_host_frame = false;
                        } else {
                            return false;
                        }
                    } else {
                        is_last_non_host_frame = false;
                    }
                },
            }
        }
        true
    }

    /// What an invocation that ran a unit of code in the top frame amounts to, given
    /// what the unit handed back.
    pub fn native_outcome(
        &mut self,
        id: &Hash256,
        func: &Symbol,
        out: Result<Option<RawVal>, PanicPayload>,
        trace_return: bool,
    ) -> (r: Result<RawVal, HostError>)
        ensures
            final(self)@ == old(self)@.native_outcome(
                *id,
                *func,
                outcome_view(out),
                trace_return,
            ).0,
            r == old(self)@.native_outcome(*id, *func, outcome_view(out), trace_return).1,
    {
        match out {
            Ok(Some(rawval)) => {
                if trace_return {
                    // The report is left out where it cannot be stored.
                    let _ = self.fn_return_diagnostics(id, func, &rawval);
                }
                Ok(rawval)
            },
            Ok(None) => {
                let args = [func.to_raw()];
                proof {
                    assert(args@ =~= seq![RawVal::Symbol(*func)]);
                }
                Err(
                    self.err(
                        ScErrorType::Context,
                        ScErrorCode::MissingValue,
                        "calling unknown contract function",
                        args.as_slice(),
                    ),
                )
            },
            Err(panic_payload) => {
                // The unit gave up. If it recorded an error in its frame before it did,
                // fish the error back out and propagate it.
                let n = self.context_len();
                let captured = if n == 0 {
                    None
                } else {
                    self.context_frame(n - 1).captured_error()
                };
                let mut error: Error = Error::unknown();
                match captured {
                    Some(err) => {
                        error = err;
                    },
                    None => {
                        // While diagnostics are on, also put the reason that the unit
                        // gave into the trace.
                        if self.is_debug() {
                            match panic_payload.message {
                                Some(text) => {
                                    let mut msg = String::from_str("caught panic '");
                                    msg.append(text.as_str());
                                    msg.append("' from contract function");
                                    let args = [func.to_raw()];
                                    proof {
                                        assert(args@ =~= seq![RawVal::Symbol(*func)]);
                                    }
                                    let _ = self.error(error, msg.as_str(), args.as_slice());
                                },
                                None => {},
                            }
                        }
                    },
                }
                Err(self.error(error, "caught error from function", &[]))
            },
        }
    }

    /// Runs `unit` on behalf of contract `id` in a guarded scope for `frame`.
    fn invoke_unit(
        &mut self,
        unit: C,
        frame: Frame,
        id: &Hash256,
        func: &Symbol,
        args: &[RawVal],
        trace_return: bool,
    ) -> (r: Result<RawVal, HostError>)
        ensures
            old(self)@.unit_scope_returns(
                unit,
                frame@,
                *id,
                *func,
                args@,
                trace_return,
                final(self)@,
                r,
            ),
    {
        let id: Hash256 = *id;
        let func: Symbol = *func;
        let ghost frame_view = frame@;
        let body = |h: &mut Host<C>| -> (res: Result<RawVal, HostError>)
            ensures
                old(h)@.evolves_to(final(h)@),
                exists|called: HostView<C>, out: Result<Option<RawVal>, Option<Seq<char>>>| #[trigger]
                    unit.call_returns(func, args@, old(h)@, called, out) && old(h)@.evolves_to(
                        called,
                    ) && (final(h)@, res) == called.native_outcome(id, func, out, trace_return),
            {
                let ghost before = h@;
                let handed = unit.call(&func, h, args);
                let ghost called = h@;
                let ghost out = outcome_view(handed);
                let r = h.native_outcome(&id, &func, handed, trace_return);
                proof {
                    lemma_native_outcome_evolves(called, id, func, out, trace_return);
                    lemma_evolves_transitive(before, called, h@);
                    assert(unit.call_returns(func, args@, before, called, out) && before.evolves_to(
                        called,
                    ) && (h@, r) == called.native_outcome(id, func, out, trace_return));
                }
                r
            };
        let r = self.with_frame(frame, body);
        proof {
            if old(self)@.enter_frame(frame_view).1 is Ok {
                let entered = old(self)@.enter_frame(frame_view).0;
                let rp = old(self)@.enter_frame(frame_view).1->Ok_0;
                let (inner, res) = choose|inner: &mut Host<C>, res: Result<RawVal, HostError>|
                    inner@ == entered && #[trigger] call_ensures(body, (inner,), res) && (self@, r)
                        == final(inner)@.exit_frame(rp, res);
                let (called, out) = choose|
                    called: HostView<C>,
                    out: Result<Option<RawVal>, Option<Seq<char>>>,
                | #[trigger]
                    unit.call_returns(func, args@, entered, called, out) && entered.evolves_to(
                        called,
                    ) && (final(inner)@, res) == called.native_outcome(
                        id,
                        func,
                        out,
                        trace_return,
                    );
                assert(unit.call_returns(func, args@, entered, called, out) && entered.evolves_to(
                    called,
                ) && (self@, r) == called.native_outcome(
                    id,
                    func,
                    out,
                    trace_return,
                ).0.exit_frame(rp, called.native_outcome(id, func, out, trace_return).1));
            }
        }
        r
    }

    /// The key under which the executable of contract `id` is kept.
    pub fn contract_executable_ledger_key(&self, id: &Hash256) -> (r: LedgerKey)
        ensures
            r@ == contract_executable_key(*id),
    {
        LedgerKey::ContractData { contract_id: *id, key: ScVal::LedgerKeyContractExecutable }
    }

    /// Looks up the executable of contract `id`.
    fn executable_of(&mut self, id: &Hash256) -> (r: Result<ScContractExecutable, HostError>)
        ensures
            match old(self)@.executable_of(*id) {
                Ok(e) => final(self)@ == old(self)@ && r == Ok::<ScContractExecutable, HostError>(e),
                Err(u) => old(self)@.unresolved(u, final(self)@, r),
            },
    {
        // Create key for storage
        let storage_key = self.contract_executable_ledger_key(id);
        let found: Option<Option<ScContractExecutable>> = match self.storage_map().get(&storage_key) {
            None => None,
            Some(LedgerEntry::ContractData { val: ScVal::ContractExecutable(e), .. }) => Some(
                Some(*e),
            ),
            Some(_) => Some(None),
        };
        match found {
            None => Err(
                self.err(
                    ScErrorType::Storage,
                    ScErrorCode::MissingValue,
                    "contract executable missing",
                    &[],
                ),
            ),
            Some(None) => Err(
                self.err(
                    ScErrorType::Storage,
                    ScErrorCode::UnexpectedType,
                    "ledger entry is not a contract executable",
                    &[],
                ),
            ),
            Some(Some(e)) => Ok(e),
        }
    }

    /// Looks up the code that is kept under `hash`.
    fn code_of(&mut self, hash: Hash256) -> (r: Result<Vec<u8>, HostError>)
        ensures
            match old(self)@.code_of(hash) {
                Ok(code) => final(self)@ == old(self)@ && r is Ok && r->Ok_0@ == code,
                Err(u) => old(self)@.unresolved(u, final(self)@, r),
            },
    {
        let code_key = LedgerKey::ContractCode { hash };
        let code: Option<Option<Vec<u8>>> = match self.storage_map().get(&code_key) {
            None => None,
            Some(LedgerEntry::ContractCode { code, .. }) => Some(Some(bytes_clone(code.as_slice()))),
            Some(_) => Some(None),
        };
        match code {
            None => Err(
                self.err(ScErrorType::Storage, ScErrorCode::MissingValue, "contract code missing", &[]),
            ),
            Some(None) => Err(
                self.err(
                    ScErrorType::Storage,
                    ScErrorCode::UnexpectedType,
                    "contract code missing",
                    &[],
                ),
            ),
            Some(Some(code)) => Ok(code),
        }
    }

    /// Finds what a call of `func` on contract `id` runs, and makes the frame for it.
    fn resolve(&mut self, id: &Hash256, func: &Symbol, args: &[RawVal]) -> (r: Result<
        (C, Frame),
        HostError,
    >)
        ensures
            match old(self)@.resolve(*id, *func, args@) {
                Ok((unit, frame)) => final(self)@ == old(self)@ && r is Ok && r->Ok_0.0 == unit
                    && r->Ok_0.1@ == frame,
                Err(u) => old(self)@.unresolved(u, final(self)@, r),
            },
    {
        let executable = match self.executable_of(id) {
            Err(e) => {
                return Err(e);
            },
            Ok(executable) => executable,
        };
        match executable {
            ScContractExecutable::WasmRef(wasm_hash) => {
                let code = match self.code_of(wasm_hash) {
                    Err(e) => {
                        return Err(e);
                    },
                    Ok(code) => code,
                };
                match self.vm() {
                    None => Err(
                        self.err(
                            ScErrorType::WasmVm,
                            ScErrorCode::MissingValue,
                            "no virtual machine to run contract code",
                            &[],
                        ),
                    ),
                    Some(machine) => {
                        let vm = Rc::new(Vm { contract_id: *id, code });
                        Ok((machine, Frame::ContractVM(vm, *func, rawvals_clone(args))))
                    },
                }
            },
            ScContractExecutable::Token => match self.token() {
                None => Err(
                    self.err(
                        ScErrorType::Context,
                        ScErrorCode::MissingValue,
                        "no built-in token contract",
                        &[],
                    ),
                ),
                Some(token) => Ok((token, Frame::Token(*id, *func, rawvals_clone(args)))),
            },
        }
    }

    /// Calls `func` on contract `id`, resolving what to run through storage.
    pub fn call_contract_fn(&mut self, id: &Hash256, func: &Symbol, args: &[RawVal]) -> (r: Result<
        RawVal,
        HostError,
    >)
        ensures
            old(self)@.call_contract_fn_returns(*id, *func, args@, final(self)@, r),
    {
        match self.resolve(id, func, args) {
            Err(e) => Err(e),
            Ok((unit, frame)) => self.invoke_unit(unit, frame, id, func, args, false),
        }
    }

    /// Calls `func` on the contract whose identifier the byte string `id` holds, as a
    /// contract would.
    pub fn call_n(
        &mut self,
        id: BytesObject,
        func: Symbol,
        args: &[RawVal],
        reentry_mode: ContractReentryMode,
    ) -> (r: Result<RawVal, HostError>)
        ensures
            match old(self)@.fixed_length_bytes_of("contract"@, id.spec_to_object(), 32) {
                (h, Err(e)) => final(self)@ == h && r == Err::<RawVal, HostError>(e),
                (h, Ok(bytes)) => h.call_returns(
                    Hash256::spec_from_seq(bytes),
                    func,
                    args@,
                    reentry_mode,
                    false,
                    final(self)@,
                    r,
                ),
            },
            old(self)@.evolves_to(final(self)@),
            final(self)@.frames == old(self)@.frames,
    {
        let contract_id = match self.hash_from_bytesobj_input("contract", id) {
            Err(e) => {
                return Err(e);
            },
            Ok(contract_id) => contract_id,
        };
        self.call_n_internal(&contract_id, func, args, reentry_mode, false)
    }

    /// Calls `func` on contract `id`.
    ///
    /// Internal host calls may call some special functions that otherwise aren't
    /// allowed to be called.
    pub fn call_n_internal(
        &mut self,
        id: &Hash256,
        func: Symbol,
        args: &[RawVal],
        reentry_mode: ContractReentryMode,
        internal_host_call: bool,
    ) -> (r: Result<RawVal, HostError>)
        ensures
            old(self)@.call_returns(
                *id,
                func,
                args@,
                reentry_mode,
                internal_host_call,
                final(self)@,
                r,
            ),
            old(self)@.evolves_to(final(self)@),
            final(self)@.frames == old(self)@.frames,
            r matches Ok(v) ==> v.spec_as_error() is None,
            r is Err ==> {
                &&& final(self)@.storage == old(self)@.storage
                &&& final(self)@.events.len() <= old(self)@.events.len() + 2
                &&& !old(self)@.is_debug() ==> final(self)@.events == old(self)@.events
            },
    {
        let r = self.check_and_dispatch(id, func, args, reentry_mode, internal_host_call);
        proof {
            lemma_call_returns(
                old(self)@,
                *id,
                func,
                args@,
                reentry_mode,
                internal_host_call,
                self@,
                r,
            );
        }
        r
    }

    /// The steps of a call: the checks, the report to the trace, the dispatch.
    fn check_and_dispatch(
        &mut self,
        id: &Hash256,
        func: Symbol,
        args: &[RawVal],
        reentry_mode: ContractReentryMode,
        internal_host_call: bool,
    ) -> (r: Result<RawVal, HostError>)
        ensures
            old(self)@.call_returns(
                *id,
                func,
                args@,
                reentry_mode,
                internal_host_call,
                final(self)@,
                r,
            ),
    {
        if !internal_host_call && func.is_reserved() {
            let reserved = [func.to_raw()];
            proof {
                assert(reserved@ =~= seq![RawVal::Symbol(func)]);
            }
            return Err(
                self.err(
                    ScErrorType::Context,
                    ScErrorCode::InvalidAction,
                    "can't invoke a reserved function directly",
                    reserved.as_slice(),
                ),
            );
        }
        if !self.check_reentry(id, reentry_mode) {
            return Err(
                self.err(
                    ScErrorType::Context,
                    ScErrorCode::InvalidAction,
                    "Contract re-entry is not allowed",
                    &[],
                ),
            );
        }
        // The report is left out where it cannot be stored.
        let _ = self.fn_call_diagnostics(id, &func, args);
        self.dispatch(id, func, args)
    }

    /// Runs the contract that is registered to run natively under `id`, if there is
    /// one; resolves the call through storage otherwise.
    fn dispatch(&mut self, id: &Hash256, func: Symbol, args: &[RawVal]) -> (r: Result<
        RawVal,
        HostError,
    >)
        ensures
            old(self)@.dispatch_returns(*id, func, args@, final(self)@, r),
    {
        match self.registered_contract(id) {
            Some(cfs) => {
                let frame = TestContractFrame::new(*id, func, rawvals_clone(args));
                self.invoke_unit(cfs, Frame::TestContract(frame), id, &func, args, true)
            },
            None => {
                match self.call_contract_fn(id, &func, args) {
                    Ok(v) => {
                        // The report is left out where it cannot be stored.
                        let _ = self.fn_return_diagnostics(id, &func, &v);
                        Ok(v)
                    },
                    Err(e) => Err(e),
                }
            },
        }
    }
}

/// What the outcome of a unit does to the host is within what a frame may do.
pub proof fn lemma_native_outcome_evolves<C>(
    h: HostView<C>,
    id: Hash256,
    func: Symbol,
    out: Result<Option<RawVal>, Option<Seq<char>>>,
    trace_return: bool,
)
    ensures
        h.evolves_to(h.native_outcome(id, func, out, trace_return).0),
        h.native_outcome(id, func, out, trace_return).0.frames == h.frames,
        h.native_outcome(id, func, out, trace_return).0.storage == h.storage,
{
}

/// A report to the trace adds at most one event, and none while diagnostics are off.
pub proof fn lemma_error_adds_at_most_one_event<C>(h: HostView<C>)
    ensures
        forall|error: Error, msg: Seq<u8>, args: Seq<RawVal>|
            {
                &&& (#[trigger] h.error(error, msg, args)).events.len() <= h.events.len() + 1
                &&& !h.is_debug() ==> h.error(error, msg, args) == h
            },
{
}

/// A failure raised on a host leaves the frames, the storage map and the budget as
/// they are, and is within what a frame may do.
pub proof fn lemma_fails_with<C>(
    pre: HostView<C>,
    type_: ScErrorType,
    code: ScErrorCode,
    msg: Seq<u8>,
    args: Seq<RawVal>,
    post: HostView<C>,
    r: Result<RawVal, HostError>,
)
    requires
        pre.fails_with(type_, code, msg, args, post, r),
    ensures
        post.frames == pre.frames,
        post.storage == pre.storage,
        pre.evolves_to(post),
        post.events.len() <= pre.events.len() + 1,
        !pre.is_debug() ==> post == pre,
        r is Err,
{
    lemma_error_evolves(pre, Error::spec_new(type_, code), msg, args);
}

/// Reporting a call or a return to the trace leaves the frames, the storage map, the
/// authorisation manager and what is plugged in as they are, and is within what a
/// frame may do.
pub proof fn lemma_call_diagnostics_evolve<C>(
    h: HostView<C>,
    id: Hash256,
    func: Symbol,
    args: Seq<RawVal>,
    res: RawVal,
)
    ensures
        h.evolves_to(h.fn_call_diagnostics(id, func, args).0),
        h.fn_call_diagnostics(id, func, args).0.frames == h.frames,
        h.fn_call_diagnostics(id, func, args).0.storage == h.storage,
        h.fn_call_diagnostics(id, func, args).0.auth == h.auth,
        h.fn_call_diagnostics(id, func, args).1 is Err ==> h.fn_call_diagnostics(id, func, args).0
            == h,
        h.fn_call_diagnostics(id, func, args).0.events.len() <= h.events.len() + 1,
        !h.is_debug() ==> h.fn_call_diagnostics(id, func, args).0 == h,
        h.evolves_to(h.fn_return_diagnostics(id, func, res).0),
        h.fn_return_diagnostics(id, func, res).0.frames == h.frames,
        h.fn_return_diagnostics(id, func, res).0.storage == h.storage,
        h.fn_return_diagnostics(id, func, res).0.auth == h.auth,
{
}

/// A guarded scope in which a unit runs is a guarded scope: it guarantees what
/// [`lemma_scope_returns`] says.
pub proof fn lemma_unit_scope_returns<C: ContractFunctionSet>(
    pre: HostView<C>,
    unit: C,
    frame: FrameView,
    id: Hash256,
    func: Symbol,
    args: Seq<RawVal>,
    trace_return: bool,
    post: HostView<C>,
    r: Result<RawVal, HostError>,
)
    requires
        pre.unit_scope_returns(unit, frame, id, func, args, trace_return, post, r),
    ensures
        pre.scope_returns(frame, post, r),
{
    match pre.enter_frame(frame) {
        (h, Err(e)) => {},
        (h, Ok(rp)) => {
            let (called, out) = choose|
                called: HostView<C>,
                out: Result<Option<RawVal>, Option<Seq<char>>>,
            | #[trigger]
                unit.call_returns(func, args, h, called, out) && h.evolves_to(called) && (post, r)
                    == called.native_outcome(id, func, out, trace_return).0.exit_frame(
                    rp,
                    called.native_outcome(id, func, out, trace_return).1,
                );
            lemma_native_outcome_evolves(called, id, func, out, trace_return);
            let mid = called.native_outcome(id, func, out, trace_return).0;
            let res = called.native_outcome(id, func, out, trace_return).1;
            lemma_evolves_transitive(h, called, mid);
            assert(h.evolves_to(mid) && (post, r) == mid.exit_frame(rp, res));
        },
    }
}

/// What every dispatch guarantees, however it ends; see [`lemma_call_returns`].
pub proof fn lemma_dispatch_returns<C: ContractFunctionSet>(
    pre: HostView<C>,
    id: Hash256,
    func: Symbol,
    args: Seq<RawVal>,
    post: HostView<C>,
    r: Result<RawVal, HostError>,
)
    requires
        pre.dispatch_returns(id, func, args, post, r),
    ensures
        post.frames == pre.frames,
        pre.evolves_to(post),
        r matches Ok(v) ==> v.spec_as_error() is None,
        r is Err ==> {
            &&& post.storage == pre.storage
            &&& post.events.len() <= pre.events.len() + 1
            &&& !pre.is_debug() ==> post.events == pre.events
        },
{
    if pre.registered(id) is None {
        let (mid, res) = choose|mid: HostView<C>, res: Result<RawVal, HostError>| #[trigger]
            pre.call_contract_fn_returns(id, func, args, mid, res) && (post, r)
                == mid.after_contract_fn(id, func, res);
        lemma_call_contract_fn_returns(pre, id, func, args, mid, res);
    } else {
        let frame = test_contract_frame(id, func, args);
        lemma_unit_scope_returns(pre, pre.registered(id)->0, frame, id, func, args, true, post, r);
        lemma_scope_returns(pre, frame, post, r);
    }
}

/// What every call guarantees, however it ends.
///
/// The frame stack is what it was before the call, and every object and event of
/// before is still there. A call that succeeds does not return an error code. A call
/// that fails, for whatever reason, leaves the storage map exactly as it was and adds
/// at most two events, the report of the call and the report of a failure, and none
/// while diagnostics are off.
pub proof fn lemma_call_returns<C: ContractFunctionSet>(
    pre: HostView<C>,
    id: Hash256,
    func: Symbol,
    args: Seq<RawVal>,
    mode: ContractReentryMode,
    internal_host_call: bool,
    post: HostView<C>,
    r: Result<RawVal, HostError>,
)
    requires
        pre.call_returns(id, func, args, mode, internal_host_call, post, r),
    ensures
        post.frames == pre.frames,
        pre.evolves_to(post),
        r matches Ok(v) ==> v.spec_as_error() is None,
        r is Err ==> {
            &&& post.storage == pre.storage
            &&& post.events.len() <= pre.events.len() + 2
            &&& !pre.is_debug() ==> post.events == pre.events
        },
{
    if !internal_host_call && func.spec_is_reserved() {
        lemma_fails_with(
            pre,
            ScErrorType::Context,
            ScErrorCode::InvalidAction,
            reserved_function_message(),
            seq![RawVal::Symbol(func)],
            post,
            r,
        );
    } else if !reentry_allowed(pre.frames, id, mode) {
        lemma_fails_with(
            pre,
            ScErrorType::Context,
            ScErrorCode::InvalidAction,
            reentry_message(),
            Seq::empty(),
            post,
            r,
        );
    } else {
        lemma_call_diagnostics_evolve(pre, id, func, args, RawVal::Void);
        let announced = pre.fn_call_diagnostics(id, func, args);
        lemma_dispatch_returns(announced.0, id, func, args, post, r);
        lemma_evolves_transitive(pre, announced.0, post);
    }
}

/// What every call through storage guarantees, however it ends; see
/// [`lemma_call_returns`].
pub proof fn lemma_call_contract_fn_returns<C: ContractFunctionSet>(
    pre: HostView<C>,
    id: Hash256,
    func: Symbol,
    args: Seq<RawVal>,
    post: HostView<C>,
    r: Result<RawVal, HostError>,
)
    requires
        pre.call_contract_fn_returns(id, func, args, post, r),
    ensures
        post.frames == pre.frames,
        pre.evolves_to(post),
        r matches Ok(v) ==> v.spec_as_error() is None,
        r is Err ==> {
            &&& post.storage == pre.storage
            &&& post.events.len() <= pre.events.len() + 1
            &&& !pre.is_debug() ==> post.events == pre.events
        },
{
    match pre.resolve(id, func, args) {
        Err(u) => {
            lemma_fails_with(pre, u.type_, u.code, u.msg, Seq::empty(), post, r);
        },
        Ok((unit, frame)) => {
            lemma_unit_scope_returns(pre, unit, frame, id, func, args, false, post, r);
            lemma_scope_returns(pre, frame, post, r);
        },
    }
}

/// Under `Allowed` every call is allowed.
pub proof fn lemma_reentry_allowed(frames: Seq<FrameView>, id: Hash256)
    ensures
        reentry_allowed(frames, id, ContractReentryMode::Allowed),
{
}

/// Under `Prohibited` a contract that runs in any frame of the stack cannot be
/// called, and a contract that runs in none can.
pub proof fn lemma_reentry_prohibited(frames: Seq<FrameView>, id: Hash256)
    ensures
        reentry_allowed(frames, id, ContractReentryMode::Prohibited) <==> forall|i: int|
            0 <= i < frames.len() ==> (#[trigger] frames[i]).contract_id() != Some(id),
{
}

/// Under `SelfAllowed` a contract may call itself directly: if the most recent
/// contract frame runs it and no other frame does, the call is allowed.
pub proof fn lemma_reentry_self_direct(frames: Seq<FrameView>, id: Hash256, top: int)
    requires
        0 <= top < frames.len(),
        frames[top].contract_id() == Some(id),
        is_last_non_host_frame(frames, top),
        forall|i: int| 0 <= i < top ==> (#[trigger] frames[i]).contract_id() != Some(id),
    ensures
        reentry_allowed(frames, id, ContractReentryMode::SelfAllowed),
        !reentry_allowed(frames, id, ContractReentryMode::Prohibited),
{
    assert forall|i: int|
        0 <= i < frames.len() && (#[trigger] frames[i]).contract_id() == Some(
            id,
        ) implies is_last_non_host_frame(frames, i) by {
    }
}

/// Under `SelfAllowed` a contract may not call itself through another contract: if
/// a frame runs it and a frame above that one runs any contract, the call is refused,
/// as it is under `Prohibited`.
pub proof fn lemma_reentry_self_via_other(frames: Seq<FrameView>, id: Hash256, lower: int, upper: int)
    requires
        0 <= lower < upper < frames.len(),
        frames[lower].contract_id() == Some(id),
        frames[upper].contract_id() is Some,
    ensures
        !reentry_allowed(frames, id, ContractReentryMode::SelfAllowed),
        !reentry_allowed(frames, id, ContractReentryMode::Prohibited),
{
}

/// A call that the re-entry policy refuses fails with `Context`/`InvalidAction`
/// before any frame is pushed: the frames, the storage map, the budget and the
/// authorisation manager are untouched, and all that may have happened is a report
/// to the trace.
pub proof fn lemma_refused_call_pushes_nothing<C: ContractFunctionSet>(
    pre: HostView<C>,
    id: Hash256,
    func: Symbol,
    args: Seq<RawVal>,
    mode: ContractReentryMode,
    post: HostView<C>,
    r: Result<RawVal, HostError>,
)
    requires
        !reentry_allowed(pre.frames, id, mode),
        pre.call_returns(id, func, args, mode, true, post, r),
    ensures
        r == Err::<RawVal, HostError>(
            HostError::spec_new(ScErrorType::Context, ScErrorCode::InvalidAction),
        ),
        post == pre.error(
            Error::spec_new(ScErrorType::Context, ScErrorCode::InvalidAction),
            reentry_message(),
            Seq::empty(),
        ),
        post.frames == pre.frames,
        post.storage == pre.storage,
        post.budget == pre.budget,
        post.auth == pre.auth,
        !pre.is_debug() ==> post == pre,
{
}

/// The result of a scope in which a unit runs is what the unit handed back.
///
/// Let the frame be entered, and let the unit hand back nothing but `out`. A value
/// that is no error code is returned, unless popping the last frame fails; a value
/// that is an error code fails the scope with that code; a unit without the function
/// fails it with `Context`/`MissingValue`; and a unit that gave up fails it with the
/// error recorded in its frame, or with the unknown error if none was recorded.
/// Whatever happens while the frame is popped changes none of these failures.
pub proof fn lemma_unit_scope_result<C: ContractFunctionSet>(
    pre: HostView<C>,
    unit: C,
    frame: FrameView,
    id: Hash256,
    func: Symbol,
    args: Seq<RawVal>,
    trace_return: bool,
    out: Result<Option<RawVal>, Option<Seq<char>>>,
    post: HostView<C>,
    r: Result<RawVal, HostError>,
)
    requires
        pre.enter_frame(frame).1 is Ok,
        forall|h: HostView<C>, called: HostView<C>, o: Result<Option<RawVal>, Option<Seq<char>>>| #[trigger]
            unit.call_returns(func, args, h, called, o) ==> o == out,
        pre.unit_scope_returns(unit, frame, id, func, args, trace_return, post, r),
    ensures
        out matches Ok(Some(v)) ==> (v.spec_as_error() matches Some(e) ==> r == Err::<
            RawVal,
            HostError,
        >(HostError { error: e })),
        out matches Ok(Some(v)) ==> (v.spec_as_error() is None ==> (r is Ok ==> r == Ok::<
            RawVal,
            HostError,
        >(v)) && (pre.frames.len() > 0 ==> r is Ok)),
        out == Ok::<Option<RawVal>, Option<Seq<char>>>(None) ==> r == Err::<RawVal, HostError>(
            HostError::spec_new(ScErrorType::Context, ScErrorCode::MissingValue),
        ),
        out is Err ==> exists|called: HostView<C>| #[trigger]
            pre.enter_frame(frame).0.evolves_to(called) && r == Err::<RawVal, HostError>(
                HostError {
                    error: match called.captured_error() {
                        Some(e) => e,
                        None => Error::spec_unknown(),
                    },
                },
            ),
{
    lemma_enter_frame_evolves(pre, frame);
    let entered = pre.enter_frame(frame).0;
    let rp = pre.enter_frame(frame).1->Ok_0;
    let (called, o) = choose|called: HostView<C>, o: Result<Option<RawVal>, Option<Seq<char>>>| #[trigger]
        unit.call_returns(func, args, entered, called, o) && entered.evolves_to(called) && (post, r)
            == called.native_outcome(id, func, o, trace_return).0.exit_frame(
            rp,
            called.native_outcome(id, func, o, trace_return).1,
        );
    lemma_native_outcome_evolves(called, id, func, out, trace_return);
    let mid = called.native_outcome(id, func, out, trace_return).0;
    let res = called.native_outcome(id, func, out, trace_return).1;
    assert(mid.frames.len() == pre.frames.len() + 1);
    lemma_scope_result(mid, rp, res);
    if out is Err {
        assert(entered.evolves_to(called) && r == Err::<RawVal, HostError>(
            HostError {
                error: match called.captured_error() {
                    Some(e) => e,
                    None => Error::spec_unknown(),
                },
            },
        ));
    }
}

/// The report of a call costs nothing and touches nothing that is plugged in: the
/// budget, the authorisation manager, what is plugged in and, therefore, what a call
/// runs stay as they are.
pub proof fn lemma_call_report_is_free<C>(h: HostView<C>, id: Hash256, func: Symbol, args: Seq<RawVal>)
    ensures
        h.fn_call_diagnostics(id, func, args).0.budget == h.budget,
        h.fn_call_diagnostics(id, func, args).0.auth == h.auth,
        h.fn_call_diagnostics(id, func, args).0.contracts == h.contracts,
        h.fn_call_diagnostics(id, func, args).0.vm == h.vm,
        h.fn_call_diagnostics(id, func, args).0.token == h.token,
        h.fn_call_diagnostics(id, func, args).0.registered(id) == h.registered(id),
        h.fn_call_diagnostics(id, func, args).0.resolve(id, func, args) == h.resolve(id, func, args),
        h.fn_call_diagnostics(id, func, args).0.target(id, func, args) == h.target(id, func, args),
{
    lemma_call_diagnostics_evolve(h, id, func, args, RawVal::Void);
}

/// Whether a frame can be entered depends on the budget and on the authorisation
/// manager alone.
pub proof fn lemma_frame_is_entered_alike<C>(h1: HostView<C>, h2: HostView<C>, frame: FrameView)
    requires
        h1.budget == h2.budget,
        h1.auth == h2.auth,
    ensures
        h1.enter_frame(frame).1 is Ok <==> h2.enter_frame(frame).1 is Ok,
{
}

/// A report never decides what a call returns: a value that a call returned is the
/// result of the call whether or not its return could be reported to the trace, and
/// where it could not, the host is the one before the report.
pub proof fn lemma_report_never_decides<C>(
    h: HostView<C>,
    id: Hash256,
    func: Symbol,
    res: Result<RawVal, HostError>,
    v: RawVal,
)
    ensures
        h.after_contract_fn(id, func, res).1 == res,
        h.native_outcome(id, func, Ok(Some(v)), true).1 == Ok::<RawVal, HostError>(v),
        h.fn_return_diagnostics(id, func, v).1 is Err ==> h.after_contract_fn(id, func, Ok(v)).0 == h
            && h.native_outcome(id, func, Ok(Some(v)), true).0 == h,
{
}

/// A call that is allowed and finds what to run returns what that returns.
///
/// Let a call be made from a frame, of a function that the caller may call, against
/// a stack on which the re-entry policy allows it. Let the call find a unit to run,
/// as [`HostView::target`] says, and let the budget cover the new frame. If the
/// unit, called with this function and these arguments, hands back nothing but the
/// value `v`, and `v` is no error code, then the call returns `Ok(v)`, whether or
/// not the reports to the trace could be stored.
pub proof fn lemma_allowed_call_returns_value<C: ContractFunctionSet>(
    pre: HostView<C>,
    id: Hash256,
    func: Symbol,
    args: Seq<RawVal>,
    mode: ContractReentryMode,
    internal_host_call: bool,
    v: RawVal,
    post: HostView<C>,
    r: Result<RawVal, HostError>,
)
    requires
        pre.frames.len() > 0,
        internal_host_call || !func.spec_is_reserved(),
        reentry_allowed(pre.frames, id, mode),
        pre.target(id, func, args) is Some,
        pre.enter_frame((pre.target(id, func, args)->0).1).1 is Ok,
        v.spec_as_error() is None,
        forall|h: HostView<C>, called: HostView<C>, out: Result<Option<RawVal>, Option<Seq<char>>>| #[trigger]
            (pre.target(id, func, args)->0).0.call_returns(func, args, h, called, out) ==> out == Ok::<
                Option<RawVal>,
                Option<Seq<char>>,
            >(Some(v)),
        pre.call_returns(id, func, args, mode, internal_host_call, post, r),
    ensures
        r == Ok::<RawVal, HostError>(v),
{
    let unit = (pre.target(id, func, args)->0).0;
    let frame = (pre.target(id, func, args)->0).1;
    let announced = pre.fn_call_diagnostics(id, func, args).0;
    lemma_call_diagnostics_evolve(pre, id, func, args, v);
    lemma_call_report_is_free(pre, id, func, args);
    lemma_frame_is_entered_alike(pre, announced, frame);
    assert(announced.frames == pre.frames);
    assert(announced.dispatch_returns(id, func, args, post, r));
    if pre.registered(id) is Some {
        assert(announced.unit_scope_returns(unit, frame, id, func, args, true, post, r));
        lemma_unit_scope_result(announced, unit, frame, id, func, args, true, Ok(Some(v)), post, r);
    } else {
        let (mid, res) = choose|mid: HostView<C>, res: Result<RawVal, HostError>| #[trigger]
            announced.call_contract_fn_returns(id, func, args, mid, res) && (post, r)
                == mid.after_contract_fn(id, func, res);
        assert(announced.unit_scope_returns(unit, frame, id, func, args, false, mid, res));
        lemma_unit_scope_result(announced, unit, frame, id, func, args, false, Ok(Some(v)), mid, res);
        lemma_report_never_decides(mid, id, func, res, v);
    }
}

/// Under `SelfAllowed` a contract may call itself directly, and gets its answer: if
/// the most recent contract frame runs the contract and no other frame does, a call
/// of a function of that contract that hands back `v` returns `Ok(v)`. See
/// [`lemma_allowed_call_returns_value`] for what is asked of the call.
pub proof fn lemma_direct_self_call_returns_value<C: ContractFunctionSet>(
    pre: HostView<C>,
    id: Hash256,
    func: Symbol,
    args: Seq<RawVal>,
    top: int,
    v: RawVal,
    post: HostView<C>,
    r: Result<RawVal, HostError>,
)
    requires
        0 <= top < pre.frames.len(),
        pre.frames[top].contract_id() == Some(id),
        is_last_non_host_frame(pre.frames, top),
        forall|i: int| 0 <= i < top ==> (#[trigger] pre.frames[i]).contract_id() != Some(id),
        !func.spec_is_reserved(),
        pre.target(id, func, args) is Some,
        pre.enter_frame((pre.target(id, func, args)->0).1).1 is Ok,
        v.spec_as_error() is None,
        forall|h: HostView<C>, called: HostView<C>, out: Result<Option<RawVal>, Option<Seq<char>>>| #[trigger]
            (pre.target(id, func, args)->0).0.call_returns(func, args, h, called, out) ==> out == Ok::<
                Option<RawVal>,
                Option<Seq<char>>,
            >(Some(v)),
        pre.call_returns(id, func, args, ContractReentryMode::SelfAllowed, false, post, r),
    ensures
        r == Ok::<RawVal, HostError>(v),
{
    lemma_reentry_self_direct(pre.frames, id, top);
    lemma_allowed_call_returns_value(
        pre,
        id,
        func,
        args,
        ContractReentryMode::SelfAllowed,
        false,
        v,
        post,
        r,
    );
}

/// Under `Allowed` nothing on the stack stands in the way of a call: whatever frames
/// there are, a call of a function of a contract that hands back `v` returns
/// `Ok(v)`. See [`lemma_allowed_call_returns_value`] for what is asked of the call.
pub proof fn lemma_call_under_allowed_returns_value<C: ContractFunctionSet>(
    pre: HostView<C>,
    id: Hash256,
    func: Symbol,
    args: Seq<RawVal>,
    v: RawVal,
    post: HostView<C>,
    r: Result<RawVal, HostError>,
)
    requires
        pre.frames.len() > 0,
        !func.spec_is_reserved(),
        pre.target(id, func, args) is Some,
        pre.enter_frame((pre.target(id, func, args)->0).1).1 is Ok,
        v.spec_as_error() is None,
        forall|h: HostView<C>, called: HostView<C>, out: Result<Option<RawVal>, Option<Seq<char>>>| #[trigger]
            (pre.target(id, func, args)->0).0.call_returns(func, args, h, called, out) ==> out == Ok::<
                Option<RawVal>,
                Option<Seq<char>>,
            >(Some(v)),
        pre.call_returns(id, func, args, ContractReentryMode::Allowed, false, post, r),
    ensures
        r == Ok::<RawVal, HostError>(v),
{
    lemma_allowed_call_returns_value(pre, id, func, args, ContractReentryMode::Allowed, false, v, post, r);
}

} // verus!
