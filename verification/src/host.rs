//! The execution context: one value that owns the frame stack, the object store, the
//! event log, the storage map, the budget and the authorisation manager. This file
//! holds the state, its mathematical model and the elementary steps on it; the
//! protocols built from those steps are in the files beside it.
use crate::auth::{AuthView, AuthorizationManager, AuthorizationManagerSnapshot, AuthorizedInvocation};
use crate::budget::{Budget, ContractCostType};
use crate::events::diagnostic::DiagnosticLevel;
use crate::events::{spec_rollback, InternalEvent, InternalEventsBuffer};
use crate::host::frame::{frames_view, Frame, FrameView};
use crate::host_object::{objects_view, HostObject, HostObjectView};
use crate::storage::{BindingView, Storage, StorageMap};
use crate::val::{Error, Hash256, HostError, Symbol};
use crate::xdr::{LedgerEntry, LedgerKey};
use vstd::prelude::*;

pub mod call;
pub mod conversion;
pub mod frame;
pub mod invoke;
pub mod lifecycle;
pub mod roundtrip;

verus! {

/// The execution context. `C` is the type of the units of code that the embedder
/// plugs in: the contracts that run natively, the virtual machine, and the built-in
/// token contract.
pub struct Host<C> {
    budget: Budget,
    storage: Storage,
    objects: Vec<HostObject>,
    events: InternalEventsBuffer,
    context: Vec<Frame>,
    authorization_manager: AuthorizationManager,
    diagnostic_level: DiagnosticLevel,
    contracts: Vec<(Hash256, C)>,
    vm: Option<C>,
    token: Option<C>,
}

/// The mathematical content of a [`Host`].
pub ghost struct HostView<C> {
    /// What has been charged, and the limit.
    pub budget: Budget,
    /// The bindings of the storage map, oldest first.
    pub storage: Seq<BindingView>,
    /// The objects of the object store, by handle.
    pub objects: Seq<HostObjectView>,
    /// The event log, oldest first.
    pub events: Seq<InternalEvent>,
    /// The frame stack, bottom first.
    pub frames: Seq<FrameView>,
    /// The authorisation manager.
    pub auth: AuthView,
    /// Whether trace events are recorded.
    pub diagnostic_level: DiagnosticLevel,
    /// The contracts that run natively, by identifier; the first entry for an
    /// identifier counts.
    pub contracts: Seq<(Hash256, C)>,
    /// The unit that runs the code of contracts, if one is plugged in.
    pub vm: Option<C>,
    /// The unit that stands for the built-in token contract, if one is plugged in.
    pub token: Option<C>,
}

impl<C> View for Host<C> {
    type V = HostView<C>;

    closed spec fn view(&self) -> HostView<C> {
        HostView {
            budget: self.budget,
            storage: self.storage@,
            objects: objects_view(self.objects@),
            events: self.events@,
            frames: frames_view(self.context@),
            auth: self.authorization_manager@,
            diagnostic_level: self.diagnostic_level,
            contracts: self.contracts@,
            vm: self.vm,
            token: self.token,
        }
    }
}

/// The position of the first entry for `id` among the first `n` of `contracts`, or `n`
/// if there is none.
pub open spec fn first_registered<C>(contracts: Seq<(Hash256, C)>, id: Hash256, n: nat) -> nat
    decreases n,
{
    if n == 0 {
        0
    } else {
        let k = first_registered(contracts, id, (n - 1) as nat);
        if k < n - 1 {
            k
        } else if n - 1 < contracts.len() && contracts[n - 1].0 == id {
            (n - 1) as nat
        } else {
            n
        }
    }
}

/// Once an entry for `id` is found at position `k`, looking further does not change
/// the answer.
pub proof fn lemma_first_registered_found<C>(
    contracts: Seq<(Hash256, C)>,
    id: Hash256,
    k: nat,
    n: nat,
)
    requires
        k < n,
        k < contracts.len(),
        first_registered(contracts, id, k) == k,
        contracts[k as int].0 == id,
    ensures
        first_registered(contracts, id, n) == k,
    decreases n,
{
    if n > k + 1 {
        lemma_first_registered_found(contracts, id, k, (n - 1) as nat);
    }
}

impl<C> HostView<C> {
    /// Whether trace events are recorded.
    pub open spec fn is_debug(self) -> bool {
        self.diagnostic_level == DiagnosticLevel::Debug
    }

    /// The contract that runs natively under `id`, if one is registered.
    pub open spec fn registered(self, id: Hash256) -> Option<C> {
        let k = first_registered(self.contracts, id, self.contracts.len());
        if k < self.contracts.len() {
            Some(self.contracts[k as int].1)
        } else {
            None
        }
    }

    /// The host after a charge, and whether the charge was covered.
    pub open spec fn charge(self, ty: ContractCostType, input: Option<u64>) -> (
        HostView<C>,
        Result<(), HostError>,
    ) {
        (
            HostView { budget: self.budget.spec_charge(ty, input).0, ..self },
            self.budget.spec_charge(ty, input).1,
        )
    }
}

impl<C: Copy> Host<C> {
    /// A host over the given ledger and budget, with an empty frame stack, object
    /// store and event log, diagnostics off, an authorisation manager that records
    /// (`recording_auth`) or enforces, and nothing plugged in.
    pub fn with_storage_and_budget(storage: Storage, budget: Budget, recording_auth: bool) -> (r:
        Host<C>)
        ensures
            r@.budget == budget,
            r@.storage == storage@,
            r@.objects == Seq::<HostObjectView>::empty(),
            r@.events == Seq::<InternalEvent>::empty(),
            r@.frames == Seq::<FrameView>::empty(),
            r@.auth == (AuthView {
                recording: recording_auth,
                in_use: false,
                call_stack: Seq::empty(),
                entries: Seq::empty(),
                emulated: false,
            }),
            r@.diagnostic_level == DiagnosticLevel::Off,
            r@.contracts == Seq::<(Hash256, C)>::empty(),
            r@.vm is None,
            r@.token is None,
    {
        let authorization_manager = if recording_auth {
            AuthorizationManager::new_recording()
        } else {
            AuthorizationManager::new_enforcing()
        };
        let r = Host {
            budget,
            storage,
            objects: Vec::new(),
            events: InternalEventsBuffer::new(),
            context: Vec::new(),
            authorization_manager,
            diagnostic_level: DiagnosticLevel::Off,
            contracts: Vec::new(),
            vm: None,
            token: None,
        };
        r
    }

    /// Registers `contract` to run natively under `id`. An earlier registration under
    /// the same identifier stays in force.
    pub fn register_test_contract(&mut self, id: Hash256, contract: C)
        ensures
            final(self)@ == (HostView {
                contracts: old(self)@.contracts.push((id, contract)),
                ..old(self)@
            }),
    {
        self.contracts.push((id, contract));
    }

    /// Plugs in the unit that runs the code of contracts.
    pub fn set_vm(&mut self, vm: C)
        ensures
            final(self)@ == (HostView { vm: Some(vm), ..old(self)@ }),
    {
        self.vm = Some(vm);
    }

    /// Plugs in the unit that stands for the built-in token contract.
    pub fn set_token(&mut self, token: C)
        ensures
            final(self)@ == (HostView { token: Some(token), ..old(self)@ }),
    {
        self.token = Some(token);
    }

    /// The contract that runs natively under `id`, if one is registered.
    pub fn registered_contract(&self, id: &Hash256) -> (r: Option<C>)
        ensures
            r == self@.registered(*id),
    {
        let mut i: usize = 0;
        while i < self.contracts.len()
            invariant
                i <= self.contracts@.len(),
                first_registered(self.contracts@, *id, i as nat) == i,
            decreases self.contracts@.len() - i,
        {
            if self.contracts[i].0 == *id {
                proof {
                    lemma_first_registered_found(
                        self.contracts@,
                        *id,
                        i as nat,
                        self.contracts@.len(),
                    );
                }
                return Some(self.contracts[i].1);
            }
            i += 1;
        }
        None
    }

    /// The unit that runs the code of contracts, if one is plugged in.
    pub fn vm(&self) -> (r: Option<C>)
        ensures
            r == self@.vm,
    {
        self.vm
    }

    /// The unit that stands for the built-in token contract, if one is plugged in.
    pub fn token(&self) -> (r: Option<C>)
        ensures
            r == self@.token,
    {
        self.token
    }

    /// The budget as it stands.
    pub fn budget(&self) -> (r: Budget)
        ensures
            r == self@.budget,
    {
        self.budget
    }

    /// Charges the cost of one operation.
    pub fn charge_budget(&mut self, ty: ContractCostType, input: Option<u64>) -> (r: Result<
        (),
        HostError,
    >)
        ensures
            final(self)@ == old(self)@.charge(ty, input).0,
            r == old(self)@.charge(ty, input).1,
    {
        self.budget.charge(ty, input)
    }

    /// Suspends metering and returns whether it was on.
    pub fn suspend_budget(&mut self) -> (was: bool)
        ensures
            was == old(self)@.budget.enabled,
            final(self)@ == (HostView {
                budget: Budget { enabled: false, ..old(self)@.budget },
                ..old(self)@
            }),
    {
        self.budget.suspend()
    }

    /// Puts metering back to what [`Host::suspend_budget`] found.
    pub fn resume_budget(&mut self, was: bool)
        ensures
            final(self)@ == (HostView {
                budget: Budget { enabled: was, ..old(self)@.budget },
                ..old(self)@
            }),
    {
        self.budget.resume(was)
    }

    /// Whether trace events are recorded.
    pub fn diagnostic_level(&self) -> (r: DiagnosticLevel)
        ensures
            r == self@.diagnostic_level,
    {
        self.diagnostic_level
    }

    /// Turns the recording of trace events on or off.
    pub fn set_diagnostic_level(&mut self, diagnostic_level: DiagnosticLevel)
        ensures
            final(self)@ == (HostView { diagnostic_level, ..old(self)@ }),
    {
        self.diagnostic_level = diagnostic_level;
    }

    /// The number of objects in the object store.
    pub fn objects_len(&self) -> (r: usize)
        ensures
            r == self@.objects.len(),
    {
        self.objects.len()
    }

    /// The object behind a handle, if the handle was issued.
    pub fn object(&self, handle: u32) -> (r: Option<&HostObject>)
        ensures
            handle < self@.objects.len() ==> (r matches Some(o) && o@ == self@.objects[handle as int]),
            handle >= self@.objects.len() ==> r is None,
    {
        if (handle as usize) < self.objects.len() {
            Some(&self.objects[handle as usize])
        } else {
            None
        }
    }

    /// Stores an object under the next handle.
    pub(crate) fn push_object(&mut self, obj: HostObject)
        ensures
            final(self)@ == (HostView { objects: old(self)@.objects.push(obj@), ..old(self)@ }),
    {
        self.objects.push(obj);
        proof {
            assert(objects_view(self.objects@) =~= objects_view(old(self).objects@).push(obj@));
        }
    }

    /// The number of events in the log.
    pub fn events_len(&self) -> (r: usize)
        ensures
            r == self@.events.len(),
    {
        self.events.len()
    }

    /// The event at a position of the log.
    pub fn event(&self, i: usize) -> (r: Option<InternalEvent>)
        ensures
            i < self@.events.len() ==> r == Some(self@.events[i as int]),
            i >= self@.events.len() ==> r is None,
    {
        if i < self.events.vec.len() {
            Some(self.events.vec[i])
        } else {
            None
        }
    }

    /// Appends an event to the log.
    pub(crate) fn record_event(&mut self, e: InternalEvent)
        ensures
            final(self)@ == (HostView { events: old(self)@.events.push(e), ..old(self)@ }),
    {
        self.events.record(e);
    }

    /// Cuts the log back to its first `len` events.
    pub(crate) fn rollback_events(&mut self, len: usize)
        ensures
            final(self)@ == (HostView {
                events: spec_rollback(old(self)@.events, len as nat),
                ..old(self)@
            }),
    {
        self.events.rollback(len);
    }

    /// The depth of the frame stack.
    pub fn context_len(&self) -> (r: usize)
        ensures
            r == self@.frames.len(),
    {
        self.context.len()
    }

    /// The frame at a position of the stack, counted from the bottom.
    pub fn context_frame(&self, i: usize) -> (r: &Frame)
        requires
            i < self@.frames.len(),
        ensures
            r@ == self@.frames[i as int],
    {
        &self.context[i]
    }

    /// Puts a frame on top of the stack.
    pub(crate) fn push_context(&mut self, frame: Frame)
        ensures
            final(self)@ == (HostView { frames: old(self)@.frames.push(frame@), ..old(self)@ }),
    {
        self.context.push(frame);
        proof {
            assert(frames_view(self.context@) =~= frames_view(old(self).context@).push(frame@));
        }
    }

    /// Takes the top frame off the stack.
    pub(crate) fn pop_context(&mut self) -> (r: Option<Frame>)
        ensures
            old(self)@.frames.len() == 0 ==> r is None && final(self)@ == old(self)@,
            old(self)@.frames.len() > 0 ==> (r matches Some(f) && f@ == old(self)@.frames.last()
                && final(self)@ == (HostView {
                frames: old(self)@.frames.drop_last(),
                ..old(self)@
            })),
    {
        let r = self.context.pop();
        proof {
            if old(self).context@.len() > 0 {
                assert(frames_view(self.context@) =~= frames_view(old(self).context@).drop_last());
            }
        }
        r
    }

    /// Records `error` in the top frame, where that frame has a place for it.
    pub fn set_captured_error(&mut self, error: Error)
        ensures
            old(self)@.frames.len() == 0 ==> final(self)@ == old(self)@,
            old(self)@.frames.len() > 0 ==> final(self)@ == (HostView {
                frames: old(self)@.frames.update(
                    old(self)@.frames.len() - 1,
                    old(self)@.frames.last().with_captured_error(error),
                ),
                ..old(self)@
            }),
    {
        match self.context.pop() {
            None => {},
            Some(frame) => {
                let frame = match frame {
                    Frame::TestContract(tc) => Frame::TestContract(
                        crate::host::frame::TestContractFrame {
                            id: tc.id,
                            func: tc.func,
                            args: tc.args,
                            panic: Some(error),
                        },
                    ),
                    other => other,
                };
                self.context.push(frame);
                proof {
                    assert(frames_view(self.context@) =~= frames_view(old(self).context@).update(
                        old(self).context@.len() - 1,
                        frames_view(old(self).context@).last().with_captured_error(error),
                    ));
                }
            },
        }
    }

    /// The storage map.
    pub fn storage_map(&self) -> (r: &StorageMap)
        ensures
            r@ == self@.storage,
    {
        &self.storage.map
    }

    /// Puts `map` in the place of the storage map.
    pub(crate) fn replace_storage_map(&mut self, map: StorageMap)
        ensures
            final(self)@ == (HostView { storage: map@, ..old(self)@ }),
    {
        self.storage.map = map;
    }

    /// Binds `key` to `entry` in the storage map, or marks it deleted where `entry` is
    /// `None`.
    pub fn storage_put(&mut self, key: LedgerKey, entry: Option<LedgerEntry>)
        ensures
            final(self)@ == (HostView {
                storage: old(self)@.storage.push(
                    (
                        key@,
                        match entry {
                            Some(e) => Some(e@),
                            None => None,
                        },
                    ),
                ),
                ..old(self)@
            }),
    {
        self.storage.map.put(key, entry);
    }

    /// The authorisation manager.
    pub fn authorization_manager(&self) -> (r: &AuthorizationManager)
        ensures
            r@ == self@.auth,
    {
        &self.authorization_manager
    }

    /// Tells the authorisation manager that `frame` is pushed.
    pub(crate) fn auth_push_frame(&mut self, frame: &Frame) -> (r: Result<(), HostError>)
        ensures
            final(self)@ == (HostView {
                auth: old(self)@.auth.push_frame(old(self)@.budget, frame@).0,
                budget: old(self)@.auth.push_frame(old(self)@.budget, frame@).1,
                ..old(self)@
            }),
            r == old(self)@.auth.push_frame(old(self)@.budget, frame@).2,
    {
        self.authorization_manager.push_frame(&mut self.budget, frame)
    }

    /// Tells the authorisation manager that the top frame is popped.
    pub(crate) fn auth_pop_frame(&mut self)
        ensures
            final(self)@ == (HostView { auth: old(self)@.auth.pop_frame(), ..old(self)@ }),
    {
        self.authorization_manager.pop_frame()
    }

    /// Puts the authorisation manager back to a snapshot.
    pub(crate) fn auth_rollback(&mut self, snapshot: AuthorizationManagerSnapshot)
        ensures
            final(self)@ == (HostView { auth: old(self)@.auth.rollback(snapshot@), ..old(self)@ }),
    {
        self.authorization_manager.rollback(snapshot)
    }

    /// Lets the authorisation manager emulate authentication, if it records.
    pub(crate) fn auth_maybe_emulate_authentication(&mut self) -> (r: Result<(), HostError>)
        ensures
            final(self)@ == (HostView {
                auth: old(self)@.auth.maybe_emulate_authentication(old(self)@.budget).0,
                budget: old(self)@.auth.maybe_emulate_authentication(old(self)@.budget).1,
                ..old(self)@
            }),
            r == old(self)@.auth.maybe_emulate_authentication(old(self)@.budget).2,
    {
        self.authorization_manager.maybe_emulate_authentication(&mut self.budget)
    }

    /// Marks the authorisation manager as being, or no longer being, in the middle of
    /// its own work. While it is, the frame stack leaves it alone.
    pub fn set_authorization_manager_in_use(&mut self, in_use: bool)
        ensures
            final(self)@ == (HostView {
                auth: AuthView { in_use, ..old(self)@.auth },
                ..old(self)@
            }),
    {
        self.authorization_manager.set_in_use(in_use)
    }

    /// Replaces the authorisations by `entries`.
    pub fn set_authorization_entries(&mut self, entries: Vec<AuthorizedInvocation>)
        ensures
            final(self)@ == (HostView {
                auth: AuthView { entries: entries@, ..old(self)@.auth },
                ..old(self)@
            }),
    {
        self.authorization_manager.set_authorization_entries(entries)
    }

    /// Asks the authorisation manager for an authorisation of a call of `function` on
    /// `contract_id`.
    pub fn authorize(&mut self, contract_id: Hash256, function: Symbol) -> (r: Result<
        (),
        HostError,
    >)
        ensures
            final(self)@ == (HostView {
                auth: old(self)@.auth.authorize(contract_id, function).0,
                ..old(self)@
            }),
            r == old(self)@.auth.authorize(contract_id, function).1,
    {
        self.authorization_manager.authorize(contract_id, function)
    }
}

} // verus!
