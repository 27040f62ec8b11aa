//! Operations that are invoked on the host from outside: each runs in a guarded
//! scope of its own, in a frame of the host itself.
use crate::auth::{AuthView, AuthorizedInvocation};
use crate::host::call::{lemma_call_returns, lemma_error_adds_at_most_one_event};
use crate::host::conversion::{lemma_to_host_vals_evolves, DEFAULT_HOST_DEPTH_LIMIT};
use crate::host::frame::{
    lemma_error_evolves, lemma_evolves_transitive, lemma_scope_returns, ContractFunctionSet,
    ContractReentryMode, Frame, FrameView,
};
use crate::host::{Host, HostView};
use crate::host_object::{HostObject, HostObjectView};
use crate::val::{
    BytesObject, Error, Hash256, HostError, RawVal, ScErrorCode, ScErrorType, Symbol,
};
use crate::xdr::{
    bytes_clone, scvals_view, ContractAuth, HostFunction, HostFunctionArgs, ScContractExecutable,
    ScVal, ScValView,
};
use vstd::prelude::*;
use vstd::slice::slice_subrange;
use vstd::string::*;

verus! {

/// The message for an invocation of a contract without a contract and a function.
pub open spec fn wrong_call_args_message() -> Seq<u8> {
    "unexpected number of arguments to 'call' host function".spec_bytes()
}

/// Whether `args` are the arguments of an invocation of a contract: the identifier
/// of the contract as a byte string, the name of the function as a symbol, and then
/// the arguments of the function.
pub open spec fn invoke_contract_args_ok(args: Seq<ScVal>) -> bool {
    args.len() >= 2 && args[0] is Bytes && args[1] is Symbol
}

/// The authorisations that come with an operation, none of them used.
pub open spec fn auth_entries(auth: Seq<ContractAuth>) -> Seq<AuthorizedInvocation> {
    auth.map_values(
        |a: ContractAuth|
            AuthorizedInvocation { contract_id: a.contract_id, function: a.function, exhausted: false },
    )
}

/// The handle of a byte string as a value.
pub open spec fn object_value(r: Result<BytesObject, HostError>) -> Result<RawVal, HostError> {
    match r {
        Ok(o) => Ok(RawVal::Object(o.spec_to_object())),
        Err(e) => Err(e),
    }
}

impl<C: ContractFunctionSet> HostView<C> {
    /// Whether an invocation of the function `func` of the contract whose identifier
    /// is `contract`, with `args`, can end with the host `post` and the result `r`,
    /// once its frame is on the stack.
    ///
    /// The identifier is stored as a byte string; the arguments are brought into the
    /// host; then the function is called as a contract would call it, with re-entry
    /// prohibited. The first of these steps that fails ends the invocation.
    pub open spec fn invoke_contract_returns(
        self,
        contract: Seq<u8>,
        func: Symbol,
        args: Seq<ScValView>,
        post: HostView<C>,
        r: Result<RawVal, HostError>,
    ) -> bool {
        match self.add_object(HostObjectView::Bytes(contract)) {
            (h1, Err(e)) => post == h1 && r == Err::<RawVal, HostError>(e),
            (h1, Ok(object)) => match h1.to_host_vals(args, DEFAULT_HOST_DEPTH_LIMIT as nat) {
                (h2, Err(e)) => post == h2 && r == Err::<RawVal, HostError>(e),
                (h2, Ok(raws)) => match h2.fixed_length_bytes_of("contract"@, object, 32) {
                    (h3, Err(e)) => post == h3 && r == Err::<RawVal, HostError>(e),
                    (h3, Ok(bytes)) => h3.call_returns(
                        Hash256::spec_from_seq(bytes),
                        func,
                        raws,
                        ContractReentryMode::Prohibited,
                        false,
                        post,
                        r,
                    ),
                },
            },
        }
    }

    /// Whether the operation `hf` can end with the host `post` and the result `r`,
    /// once its frame is on the stack: a contract is invoked, or created, or code is
    /// uploaded.
    pub open spec fn host_function_body_returns(
        self,
        hf: HostFunctionArgs,
        post: HostView<C>,
        r: Result<RawVal, HostError>,
    ) -> bool {
        match hf {
            HostFunctionArgs::InvokeContract(args) => invoke_contract_args_ok(args@)
                && self.invoke_contract_returns(
                args@[0]->Bytes_0@,
                args@[1]->Symbol_0,
                scvals_view(args@.subrange(2, args@.len() as int)),
                post,
                r,
            ),
            HostFunctionArgs::CreateContract(a) => post == self.create_contract(
                a.salt@,
                a.executable,
            ).0 && r == object_value(self.create_contract(a.salt@, a.executable).1),
            HostFunctionArgs::UploadContractWasm(a) => post == self.install_contract(a.code@).0 && r
                == object_value(self.install_contract(a.code@).1),
        }
    }

    /// Whether the operation `hf`, invoked on this host from outside, can end with the
    /// host `post` and the result `r`.
    ///
    /// An invocation of a contract whose arguments do not begin with the contract and
    /// the function fails at once, with `Context`/`UnexpectedSize`, which is reported
    /// to the trace with the number of arguments. Every other operation runs in a
    /// guarded scope of its own, in a frame of the host itself: if the guard cannot be
    /// charged or the frame cannot be pushed the operation fails with that; otherwise
    /// it does what [`HostView::host_function_body_returns`] says, and the scope ends
    /// as [`HostView::exit_frame`] says.
    pub open spec fn invoke_function_returns(
        self,
        hf: HostFunctionArgs,
        post: HostView<C>,
        r: Result<RawVal, HostError>,
    ) -> bool {
        if hf is InvokeContract && !invoke_contract_args_ok(hf->InvokeContract_0@) {
            self.fails_with(
                ScErrorType::Context,
                ScErrorCode::UnexpectedSize,
                wrong_call_args_message(),
                if hf->InvokeContract_0@.len() <= u32::MAX {
                    seq![RawVal::U32(hf->InvokeContract_0@.len() as u32)]
                } else {
                    Seq::empty()
                },
                post,
                r,
            )
        } else {
            match self.enter_frame(FrameView::HostFunction(hf.spec_discriminant())) {
                (h, Err(e)) => post == h && r == Err::<RawVal, HostError>(e),
                (h, Ok(rp)) => exists|mid: HostView<C>, res: Result<RawVal, HostError>| #[trigger]
                    h.host_function_body_returns(hf, mid, res) && (post, r) == mid.exit_frame(
                        rp,
                        res,
                    ),
            }
        }
    }
}

impl<C: ContractFunctionSet + Copy> Host<C> {
    /// Runs one operation that is invoked on the host from outside.
    pub fn invoke_function_raw(&mut self, hf: HostFunctionArgs) -> (r: Result<RawVal, HostError>)
        ensures
            old(self)@.invoke_function_returns(hf, final(self)@, r),
            old(self)@.evolves_to(final(self)@),
            final(self)@.frames == old(self)@.frames,
            r matches Ok(v) ==> v.spec_as_error() is None,
            r is Err ==> {
                &&& final(self)@.storage == old(self)@.storage
                &&& final(self)@.events.len() <= old(self)@.events.len() + 1
            },
    {
        let arguments: Option<usize> = match &hf {
            HostFunctionArgs::InvokeContract(args) => {
                let well_formed = args.len() >= 2 && matches!(args[0], ScVal::Bytes(_)) && matches!(
                    args[1],
                    ScVal::Symbol(_)
                );
                if well_formed {
                    None
                } else {
                    Some(args.len())
                }
            },
            _ => None,
        };
        match arguments {
            None => self.run_host_function(hf),
            Some(n) => {
                proof {
                    lemma_error_adds_at_most_one_event(old(self)@);
                }
                if n <= u32::MAX as usize {
                    let count = [RawVal::U32(n as u32)];
                    proof {
                        assert(count@ =~= seq![RawVal::U32(n as u32)]);
                    }
                    Err(
                        self.err(
                            ScErrorType::Context,
                            ScErrorCode::UnexpectedSize,
                            "unexpected number of arguments to 'call' host function",
                            count.as_slice(),
                        ),
                    )
                } else {
                    Err(
                        self.err(
                            ScErrorType::Context,
                            ScErrorCode::UnexpectedSize,
                            "unexpected number of arguments to 'call' host function",
                            &[],
                        ),
                    )
                }
            },
        }
    }

    /// Runs an operation in a guarded scope of its own, in a frame of the host itself.
    fn run_host_function(&mut self, hf: HostFunctionArgs) -> (r: Result<RawVal, HostError>)
        requires
            hf is InvokeContract ==> invoke_contract_args_ok(hf->InvokeContract_0@),
        ensures
            old(self)@.invoke_function_returns(hf, final(self)@, r),
            old(self)@.evolves_to(final(self)@),
            final(self)@.frames == old(self)@.frames,
            r matches Ok(v) ==> v.spec_as_error() is None,
            r is Err ==> {
                &&& final(self)@.storage == old(self)@.storage
                &&& final(self)@.events == old(self)@.events
            },
    {
        let hf_type = hf.discriminant();
        let ghost frame = FrameView::HostFunction(hf_type);
        let ghost op = hf;
        let body = |h: &mut Host<C>| -> (out: Result<RawVal, HostError>)
            ensures
                old(h)@.evolves_to(final(h)@),
                old(h)@.host_function_body_returns(op, final(h)@, out),
            { h.host_function_body(hf) };
        let r = self.with_frame(Frame::HostFunction(hf_type), body);
        proof {
            if old(self)@.enter_frame(frame).1 is Ok {
                let rp = old(self)@.enter_frame(frame).1->Ok_0;
                let (inner, res) = choose|inner: &mut Host<C>, res: Result<RawVal, HostError>|
                    inner@ == old(self)@.enter_frame(frame).0 && #[trigger] call_ensures(
                        body,
                        (inner,),
                        res,
                    ) && (self@, r) == final(inner)@.exit_frame(rp, res);
                assert(inner@.host_function_body_returns(op, final(inner)@, res));
            }
        }
        r
    }

    /// What an operation does once its frame is pushed.
    fn host_function_body(&mut self, hf: HostFunctionArgs) -> (r: Result<RawVal, HostError>)
        requires
            hf is InvokeContract ==> invoke_contract_args_ok(hf->InvokeContract_0@),
        ensures
            old(self)@.evolves_to(final(self)@),
            old(self)@.host_function_body_returns(hf, final(self)@, r),
    {
        match hf {
            HostFunctionArgs::InvokeContract(args) => self.invoke_contract(&args),
            HostFunctionArgs::CreateContract(args) => {
                proof {
                    lemma_create_contract_evolves(old(self)@, args.salt@, args.executable);
                }
                match self.create_contract(args) {
                    Ok(o) => Ok(o.to_raw()),
                    Err(e) => Err(e),
                }
            },
            HostFunctionArgs::UploadContractWasm(args) => {
                proof {
                    lemma_install_contract_evolves(old(self)@, args.code@);
                }
                match self.install_contract(args) {
                    Ok(o) => Ok(o.to_raw()),
                    Err(e) => Err(e),
                }
            },
        }
    }

    /// What an invocation of a contract from outside does once its frame is pushed:
    /// the identifier of the contract and the arguments of the function are brought
    /// into the host, and the function is called, with re-entry prohibited.
    fn invoke_contract(&mut self, args: &Vec<ScVal>) -> (r: Result<RawVal, HostError>)
        requires
            invoke_contract_args_ok(args@),
        ensures
            old(self)@.evolves_to(final(self)@),
            old(self)@.invoke_contract_returns(
                args@[0]->Bytes_0@,
                args@[1]->Symbol_0,
                scvals_view(args@.subrange(2, args@.len() as int)),
                final(self)@,
                r,
            ),
    {
        match (&args[0], &args[1]) {
            (ScVal::Bytes(scbytes), ScVal::Symbol(scsym)) => {
                let object = match self.add_host_object(
                    HostObject::Bytes(bytes_clone(scbytes.as_slice())),
                ) {
                    Err(e) => {
                        return Err(e);
                    },
                    Ok(object) => object,
                };
                let ghost stored = self@;
                let rest = slice_subrange(args.as_slice(), 2, args.len());
                proof {
                    lemma_to_host_vals_evolves(
                        stored,
                        scvals_view(rest@),
                        DEFAULT_HOST_DEPTH_LIMIT as nat,
                    );
                }
                let raws = match self.scvals_to_rawvals(rest) {
                    Err(e) => {
                        return Err(e);
                    },
                    Ok(raws) => raws,
                };
                // The frame of the host is at the bottom of the call stack, so that
                // re-entry is irrelevant: it is always prohibited.
                self.call_n(
                    BytesObject { handle: object.handle },
                    *scsym,
                    raws.as_slice(),
                    ContractReentryMode::Prohibited,
                )
            },
            _ => {
                Err(HostError { error: Error::unknown() })
            },
        }
    }

    /// Runs one operation of a run, with the authorisations that come with it while
    /// authorisations are enforced, and converts what it returned.
    fn run_operation(&mut self, hf: HostFunction, is_recording_auth: bool) -> (r: Result<
        ScVal,
        HostError,
    >)
        ensures
            old(self)@.operation_returns(hf, is_recording_auth, final(self)@, converted_view(r)),
            old(self)@.evolves_to(final(self)@),
            final(self)@.frames == old(self)@.frames,
    {
        if !is_recording_auth {
            self.set_authorization_entries(entries_of(&hf.auth));
        }
        let ghost prepared = self@;
        let invoked = self.invoke_function_raw(hf.args);
        let converted = match invoked {
            Err(e) => Err(e),
            Ok(rv) => self.from_host_val(rv),
        };
        proof {
            assert(prepared == old(self)@.prepared_for(hf, is_recording_auth));
            assert(prepared.invoke_function_returns(hf.args, self@, invoked) && converted_view(
                converted,
            ) == match invoked {
                Err(e) => Err(e),
                Ok(v) => self@.from_host_val(v),
            });
        }
        converted
    }

    /// Runs the operations `host_fns` one after the other and hands back what they
    /// returned. The first operation that fails ends the run. While authorisations are
    /// enforced, each operation runs with the authorisations that come with it.
    pub fn invoke_functions(&mut self, host_fns: Vec<HostFunction>) -> (r: Result<Vec<ScVal>, HostError>)
        ensures
            operations_return(
                old(self)@,
                host_fns@,
                old(self)@.auth.recording,
                final(self)@,
                match r {
                    Ok(res) => Ok(scvals_view(res@)),
                    Err(e) => Err(e),
                },
            ),
            old(self)@.evolves_to(final(self)@),
            final(self)@.frames == old(self)@.frames,
            r matches Ok(res) ==> res@.len() == host_fns@.len(),
    {
        let is_recording_auth = self.authorization_manager().is_recording();
        let mut res: Vec<ScVal> = Vec::new();
        let ghost fns = host_fns@;
        let ghost mut trace: Seq<HostView<C>> = Seq::empty();
        let ghost mut vals: Seq<Result<ScValView, HostError>> = Seq::empty();
        for hf in it: host_fns
            invariant
                it.seq() == fns,
                is_recording_auth == old(self)@.auth.recording,
                trace.len() == it.index(),
                is_run(old(self)@, fns, is_recording_auth, trace, vals),
                forall|j: int| 0 <= j < vals.len() ==> (#[trigger] vals[j]) is Ok,
                scvals_view(res@) == values_of(vals),
                self@ == host_before(old(self)@, trace, trace.len() as int),
                old(self)@.evolves_to(self@),
                self@.frames == old(self)@.frames,
        {
            let ghost before = self@;
            let converted = self.run_operation(hf, is_recording_auth);
            let ghost last = converted_view(converted);
            proof {
                lemma_evolves_transitive(old(self)@, before, self@);
                lemma_run_step(old(self)@, fns, is_recording_auth, trace, vals, self@, last);
                trace = trace.push(self@);
                vals = vals.push(last);
            }
            match converted {
                Err(e) => {
                    return Err(e);
                },
                Ok(v) => {
                    res.push(v);
                },
            }
        }
        Ok(res)
    }
}

impl<C: ContractFunctionSet> HostView<C> {
    /// The host as an operation finds it: with the authorisations that come with the
    /// operation installed, unless the host records authorisations.
    pub open spec fn prepared_for(self, hf: HostFunction, is_recording_auth: bool) -> HostView<C> {
        if is_recording_auth {
            self
        } else {
            HostView {
                auth: AuthView { entries: auth_entries(hf.auth@), ..self.auth },
                ..self
            }
        }
    }

    /// Whether the operation `hf`, run on this host from outside, can end with the
    /// host `post` and hand back `r`: the operation is invoked, and what it returns is
    /// converted into a self-contained value.
    pub open spec fn operation_returns(
        self,
        hf: HostFunction,
        is_recording_auth: bool,
        post: HostView<C>,
        r: Result<ScValView, HostError>,
    ) -> bool {
        exists|rv: Result<RawVal, HostError>| #[trigger]
            self.prepared_for(hf, is_recording_auth).invoke_function_returns(hf.args, post, rv) && r
                == match rv {
                Err(e) => Err(e),
                Ok(v) => post.from_host_val(v),
            }
    }
}

/// The host on which operation `i` of a run starts: the host `pre` on which the run
/// starts for the first operation, and the host that the operation before it left
/// for every other.
pub open spec fn host_before<C: ContractFunctionSet>(
    pre: HostView<C>,
    trace: Seq<HostView<C>>,
    i: int,
) -> HostView<C> {
    if i <= 0 {
        pre
    } else {
        trace[i - 1]
    }
}

/// What an operation handed back, with its value as a mathematical value.
pub open spec fn converted_view(r: Result<ScVal, HostError>) -> Result<ScValView, HostError> {
    match r {
        Ok(v) => Ok(v@),
        Err(e) => Err(e),
    }
}

/// The values of results that are all successes.
pub open spec fn values_of(vals: Seq<Result<ScValView, HostError>>) -> Seq<ScValView> {
    Seq::new(vals.len(), |i: int| vals[i]->Ok_0)
}

/// Whether `trace` and `vals` are the hosts that the first operations of `fns` left
/// and what they handed back, when they are run one after the other starting on
/// `pre`: each operation starts on the host that the one before it left, and no
/// operation runs after one that failed.
pub open spec fn is_run<C: ContractFunctionSet>(
    pre: HostView<C>,
    fns: Seq<HostFunction>,
    is_recording_auth: bool,
    trace: Seq<HostView<C>>,
    vals: Seq<Result<ScValView, HostError>>,
) -> bool {
    &&& trace.len() == vals.len()
    &&& trace.len() <= fns.len()
    &&& forall|i: int|
        0 <= i < trace.len() ==> (#[trigger] host_before(pre, trace, i)).operation_returns(
            fns[i],
            is_recording_auth,
            trace[i],
            vals[i],
        )
    &&& forall|i: int| 0 <= i < vals.len() - 1 ==> (#[trigger] vals[i]) is Ok
}

/// Whether the operations `fns`, run on the host `pre` one after the other, can end
/// with the host `post` and hand back `r`. The run ends with the first operation
/// that fails, on the host that this operation left and with its failure; if none
/// fails it ends after the last operation, with the values that the operations
/// handed back, in their order.
pub open spec fn operations_return<C: ContractFunctionSet>(
    pre: HostView<C>,
    fns: Seq<HostFunction>,
    is_recording_auth: bool,
    post: HostView<C>,
    r: Result<Seq<ScValView>, HostError>,
) -> bool {
    exists|trace: Seq<HostView<C>>, vals: Seq<Result<ScValView, HostError>>| #[trigger]
        is_run(pre, fns, is_recording_auth, trace, vals) && post == host_before(
            pre,
            trace,
            trace.len() as int,
        ) && if vals.len() > 0 && vals.last() is Err {
            r == Err::<Seq<ScValView>, HostError>(vals.last()->Err_0)
        } else {
            vals.len() == fns.len() && r == Ok::<Seq<ScValView>, HostError>(values_of(vals))
        }
}

/// One more operation extends a run in which no operation has failed.
pub proof fn lemma_run_step<C: ContractFunctionSet>(
    pre: HostView<C>,
    fns: Seq<HostFunction>,
    is_recording_auth: bool,
    trace: Seq<HostView<C>>,
    vals: Seq<Result<ScValView, HostError>>,
    post: HostView<C>,
    last: Result<ScValView, HostError>,
)
    requires
        is_run(pre, fns, is_recording_auth, trace, vals),
        trace.len() < fns.len(),
        forall|j: int| 0 <= j < vals.len() ==> (#[trigger] vals[j]) is Ok,
        host_before(pre, trace, trace.len() as int).operation_returns(
            fns[trace.len() as int],
            is_recording_auth,
            post,
            last,
        ),
    ensures
        is_run(pre, fns, is_recording_auth, trace.push(post), vals.push(last)),
        host_before(pre, trace.push(post), trace.len() as int + 1) == post,
        last matches Ok(v) ==> values_of(vals.push(last)) == values_of(vals).push(v),
        last is Ok ==> forall|j: int| 0 <= j < vals.len() + 1 ==> (#[trigger] vals.push(last)[j]) is Ok,
{
    let trace2 = trace.push(post);
    let vals2 = vals.push(last);
    if last is Ok {
        assert(values_of(vals2) =~= values_of(vals).push(last->Ok_0));
    }
    assert forall|i: int| 0 <= i < trace2.len() implies (#[trigger] host_before(
        pre,
        trace2,
        i,
    )).operation_returns(fns[i], is_recording_auth, trace2[i], vals2[i]) by {
        assert(host_before(pre, trace2, i) == host_before(pre, trace, i));
    }
}

/// The authorisations that come with an operation, none of them used.
pub fn entries_of(auth: &Vec<ContractAuth>) -> (r: Vec<AuthorizedInvocation>)
    ensures
        r@ == auth_entries(auth@),
{
    let mut v: Vec<AuthorizedInvocation> = Vec::new();
    let mut i: usize = 0;
    while i < auth.len()
        invariant
            i <= auth@.len(),
            v@.len() == i,
            forall|j: int| 0 <= j < i ==> v@[j] == auth_entries(auth@)[j],
        decreases auth@.len() - i,
    {
        v.push(
            AuthorizedInvocation {
                contract_id: auth[i].contract_id,
                function: auth[i].function,
                exhausted: false,
            },
        );
        i += 1;
    }
    v
}

/// An invocation of a contract is within what a frame may do.
pub proof fn lemma_invoke_contract_evolves<C: ContractFunctionSet>(
    pre: HostView<C>,
    contract: Seq<u8>,
    func: Symbol,
    args: Seq<ScValView>,
    post: HostView<C>,
    r: Result<RawVal, HostError>,
)
    requires
        pre.invoke_contract_returns(contract, func, args, post, r),
    ensures
        pre.evolves_to(post),
{
    let (h1, stored) = pre.add_object(HostObjectView::Bytes(contract));
    assert(pre.evolves_to(h1));
    if stored is Ok {
        let (h2, converted) = h1.to_host_vals(args, DEFAULT_HOST_DEPTH_LIMIT as nat);
        lemma_to_host_vals_evolves(h1, args, DEFAULT_HOST_DEPTH_LIMIT as nat);
        assert(h1.evolves_to(h2));
        lemma_evolves_transitive(pre, h1, h2);
        if converted is Ok {
            let (h3, read) = h2.fixed_length_bytes_of("contract"@, stored->Ok_0, 32);
            lemma_fixed_length_bytes_evolves(h2, "contract"@, stored->Ok_0, 32);
            lemma_evolves_transitive(pre, h2, h3);
            if read is Ok {
                lemma_call_returns(
                    h3,
                    Hash256::spec_from_seq(read->Ok_0),
                    func,
                    converted->Ok_0,
                    ContractReentryMode::Prohibited,
                    false,
                    post,
                    r,
                );
                lemma_evolves_transitive(pre, h3, post);
            }
        }
    }
}

/// Taking a value of fixed length out of a byte string is within what a frame may
/// do, and leaves the frames and the storage map as they are.
pub proof fn lemma_fixed_length_bytes_evolves<C>(
    h: HostView<C>,
    name: Seq<char>,
    obj: crate::val::Object,
    n: nat,
)
    ensures
        h.evolves_to(h.fixed_length_bytes_of(name, obj, n).0),
        h.fixed_length_bytes_of(name, obj, n).0.frames == h.frames,
        h.fixed_length_bytes_of(name, obj, n).0.storage == h.storage,
{
}

/// What an operation does once its frame is pushed is within what a frame may do.
pub proof fn lemma_host_function_body_evolves<C: ContractFunctionSet>(
    pre: HostView<C>,
    hf: HostFunctionArgs,
    post: HostView<C>,
    r: Result<RawVal, HostError>,
)
    requires
        pre.host_function_body_returns(hf, post, r),
    ensures
        pre.evolves_to(post),
{
    match hf {
        HostFunctionArgs::InvokeContract(args) => {
            lemma_invoke_contract_evolves(
                pre,
                args@[0]->Bytes_0@,
                args@[1]->Symbol_0,
                scvals_view(args@.subrange(2, args@.len() as int)),
                post,
                r,
            );
        },
        HostFunctionArgs::CreateContract(a) => {
            lemma_create_contract_evolves(pre, a.salt@, a.executable);
        },
        HostFunctionArgs::UploadContractWasm(a) => {
            lemma_install_contract_evolves(pre, a.code@);
        },
    }
}

/// Uploading code is within what a frame may do.
pub proof fn lemma_install_contract_evolves<C>(h: HostView<C>, code: Seq<u8>)
    ensures
        h.evolves_to(h.install_contract(code).0),
{
}

/// What every operation that is invoked from outside guarantees, however it ends.
///
/// The frame stack is what it was before the operation, and every object and event
/// of before is still there. An operation that succeeds does not return an error
/// code. An operation that fails, for whatever reason, leaves the storage map exactly
/// as it was and adds at most one event, the report of an invocation without a
/// contract and a function.
pub proof fn lemma_invoke_function_returns<C: ContractFunctionSet>(
    pre: HostView<C>,
    hf: HostFunctionArgs,
    post: HostView<C>,
    r: Result<RawVal, HostError>,
)
    requires
        pre.invoke_function_returns(hf, post, r),
    ensures
        post.frames == pre.frames,
        pre.evolves_to(post),
        r matches Ok(v) ==> v.spec_as_error() is None,
        r is Err ==> {
            &&& post.storage == pre.storage
            &&& post.events.len() <= pre.events.len() + 1
            &&& !pre.is_debug() ==> post.events == pre.events
        },
{
    if hf is InvokeContract && !invoke_contract_args_ok(hf->InvokeContract_0@) {
        lemma_error_adds_at_most_one_event(pre);
        lemma_error_evolves(
            pre,
            Error::spec_new(ScErrorType::Context, ScErrorCode::UnexpectedSize),
            wrong_call_args_message(),
            if hf->InvokeContract_0@.len() <= u32::MAX {
                seq![RawVal::U32(hf->InvokeContract_0@.len() as u32)]
            } else {
                Seq::empty()
            },
        );
    } else {
        let frame = FrameView::HostFunction(hf.spec_discriminant());
        if pre.enter_frame(frame).1 is Ok {
            let h = pre.enter_frame(frame).0;
            let rp = pre.enter_frame(frame).1->Ok_0;
            let (mid, res) = choose|mid: HostView<C>, res: Result<RawVal, HostError>| #[trigger]
                h.host_function_body_returns(hf, mid, res) && (post, r) == mid.exit_frame(rp, res);
            lemma_host_function_body_evolves(h, hf, mid, res);
            assert(h.evolves_to(mid) && (post, r) == mid.exit_frame(rp, res));
        }
        lemma_scope_returns(pre, frame, post, r);
    }
}

/// Creating a contract is within what a frame may do.
pub proof fn lemma_create_contract_evolves<C>(
    h: HostView<C>,
    salt: Seq<u8>,
    executable: ScContractExecutable,
)
    ensures
        h.evolves_to(h.create_contract(salt, executable).0),
{
    let charged = h.hash_bytes(salt).0;
}

/// No step of the host takes an object away or changes one: after every step, every
/// handle that was issued before it leads to the object it led to. (The steps that run
/// code of the embedder are covered by what they guarantee: see
/// [`crate::host::frame::lemma_scope_returns`], [`lemma_call_returns`],
/// [`lemma_invoke_function_returns`] and
/// [`crate::host::frame::lemma_evolution_keeps_objects`]; the reports to the trace and
/// the steps of the frame stack by
/// [`crate::events::diagnostic::lemma_reports_keep_objects`] and
/// [`crate::host::frame::lemma_frame_steps_keep_objects`].)
pub proof fn lemma_steps_keep_objects<C>(h: HostView<C>)
    ensures
        forall|obj: HostObjectView| (#[trigger] h.add_object(obj)).0.keeps_objects_of(h),
        forall|v: ScValView, depth: nat| (#[trigger] h.to_host_val(v, depth)).0.keeps_objects_of(h),
        forall|vs: Seq<ScValView>, depth: nat|
            (#[trigger] h.to_host_vals(vs, depth)).0.keeps_objects_of(h),
        forall|name: Seq<char>, obj: crate::val::Object, n: nat|
            (#[trigger] h.fixed_length_bytes_of(name, obj, n)).0.keeps_objects_of(h),
        forall|type_: crate::xdr::ContractEventType, topics: crate::val::VecObject, data: RawVal|
            (#[trigger] h.record_contract_event(type_, topics, data)).0.keeps_objects_of(h),
        forall|code: Seq<u8>| (#[trigger] h.install_contract(code)).0.keeps_objects_of(h),
        forall|salt: Seq<u8>, executable: ScContractExecutable|
            (#[trigger] h.create_contract(salt, executable)).0.keeps_objects_of(h),
{
    assert forall|v: ScValView, depth: nat|
        (#[trigger] h.to_host_val(v, depth)).0.keeps_objects_of(h) by {
        crate::host::conversion::lemma_to_host_val_evolves(h, v, depth);
    }
    assert forall|vs: Seq<ScValView>, depth: nat|
        (#[trigger] h.to_host_vals(vs, depth)).0.keeps_objects_of(h) by {
        lemma_to_host_vals_evolves(h, vs, depth);
    }
    assert forall|name: Seq<char>, obj: crate::val::Object, n: nat|
        (#[trigger] h.fixed_length_bytes_of(name, obj, n)).0.keeps_objects_of(h) by {
        lemma_fixed_length_bytes_evolves(h, name, obj, n);
    }
    assert forall|salt: Seq<u8>, executable: ScContractExecutable|
        (#[trigger] h.create_contract(salt, executable)).0.keeps_objects_of(h) by {
        lemma_create_contract_evolves(h, salt, executable);
    }
    assert forall|code: Seq<u8>| (#[trigger] h.install_contract(code)).0.keeps_objects_of(h) by {
        lemma_install_contract_evolves(h, code);
    }
}

} // verus!
