//! Execution host for untrusted contracts: the stack of invocation frames, the
//! rollback protocol that makes every frame all-or-nothing, the re-entry policy
//! applied at each dispatch, and the object store and event log on which they rest.
//!
//! The host is one value, [`host::Host`], that owns everything a contract can touch.
//! Its mathematical content is [`host::HostView`]; every operation says, as a function
//! or a relation on views, what it does to the host and what it returns. Where an
//! operation runs code that the embedder supplies, its contract is stated over the
//! contract of that code: what a closure ensures, and what a
//! [`host::frame::ContractFunctionSet`] says of itself in its `call_returns`. The
//! step that follows the code is an operation of its own that takes what the code
//! returned as an argument ([`host::Host::exit_frame`],
//! [`host::Host::native_outcome`]).
//!
//! What holds of the whole is stated and proved beside the operations it is about:
//!
//! * a scope that fails, for whatever reason, leaves the storage map and the event
//!   log as they were, and every scope leaves the frame stack as it was
//!   ([`host::frame::lemma_scope_returns`]); so does every call of a contract
//!   ([`host::call::lemma_call_returns`]) and every operation invoked from outside
//!   ([`host::invoke::lemma_invoke_function_returns`]), up to the reports to the
//!   trace that they make before their scope begins;
//! * a success that carries an error code is a failure
//!   ([`host::frame::lemma_escalation`]), and a scope fails with the error of its
//!   invocation ([`host::frame::lemma_scope_result`],
//!   [`host::call::lemma_unit_scope_result`]);
//! * the re-entry policy ([`host::call::lemma_reentry_prohibited`] and the lemmas that
//!   follow it), that a refused call pushes nothing
//!   ([`host::call::lemma_refused_call_pushes_nothing`]), and that an allowed call
//!   returns what the contract returned
//!   ([`host::call::lemma_allowed_call_returns_value`]);
//! * trace events are recorded only while diagnostics are on, one per report, in the
//!   documented shape, and free of charge
//!   ([`events::diagnostic::lemma_diagnostics_off`],
//!   [`events::diagnostic::lemma_diagnostics_on`]); the reports of a call and of its
//!   return are made as far as they can be stored, and never fail the call
//!   ([`host::call::lemma_report_never_decides`]);
//! * a handle of the object store leads to the same object for as long as the host
//!   lives ([`host_object::lemma_object_immutability`]);
//! * values that were brought into the host come back as they went in
//!   ([`host::roundtrip::lemma_scvals_round_trip`]).
pub mod auth;
pub mod budget;
pub mod convert;
pub mod crypto;
pub mod events;
pub mod host;
pub mod host_object;
pub mod storage;
pub mod val;
pub mod xdr;
