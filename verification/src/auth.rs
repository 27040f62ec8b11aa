//! The authorisation manager, as far as the frame stack is concerned with it: it is
//! told of every frame that is pushed and popped, its state can be saved and put
//! back, and it may be busy, in which case it is left alone.
use crate::budget::{Budget, ContractCostType};
use crate::host::frame::{Frame, FrameView};
use crate::val::{Hash256, HostError, ScErrorCode, ScErrorType, Symbol};
use vstd::prelude::*;

verus! {

/// One authorisation: `contract_id` may be called at `function`, once.
#[derive(Clone, Copy, Debug, PartialEq, Eq)]
pub struct AuthorizedInvocation {
    pub contract_id: Hash256,
    pub function: Symbol,
    pub exhausted: bool,
}

/// The state of the authorisation manager.
#[derive(Debug)]
pub struct AuthorizationManager {
    recording: bool,
    in_use: bool,
    call_stack: Vec<(Hash256, Symbol)>,
    entries: Vec<AuthorizedInvocation>,
    emulated: bool,
}

/// The mathematical content of an [`AuthorizationManager`].
pub ghost struct AuthView {
    /// Whether authorisations are recorded as they are asked for, instead of enforced.
    pub recording: bool,
    /// Whether the manager is in the middle of its own work and must be left alone.
    pub in_use: bool,
    /// The contract frames that the manager was told of, bottom first.
    pub call_stack: Seq<(Hash256, Symbol)>,
    /// The authorisations given (enforcing) or asked for (recording).
    pub entries: Seq<AuthorizedInvocation>,
    /// Whether authentication was emulated for what was recorded.
    pub emulated: bool,
}

/// What is saved of the manager at a rollback point.
#[derive(Debug)]
pub struct AuthorizationManagerSnapshot {
    entries: Vec<AuthorizedInvocation>,
}

/// The mathematical content of an [`AuthorizationManagerSnapshot`].
pub ghost struct AuthSnapshotView {
    pub entries: Seq<AuthorizedInvocation>,
}

impl View for AuthorizationManagerSnapshot {
    type V = AuthSnapshotView;

    closed spec fn view(&self) -> AuthSnapshotView {
        AuthSnapshotView { entries: self.entries@ }
    }
}

impl View for AuthorizationManager {
    type V = AuthView;

    closed spec fn view(&self) -> AuthView {
        AuthView {
            recording: self.recording,
            in_use: self.in_use,
            call_stack: self.call_stack@,
            entries: self.entries@,
            emulated: self.emulated,
        }
    }
}

/// The error that reports a call for which no authorisation is left.
pub open spec fn not_authorized() -> HostError {
    HostError::spec_new(ScErrorType::Auth, ScErrorCode::InvalidAction)
}

/// The position of the first authorisation among the first `n` of `entries` that is
/// for `contract_id` and `function` and not used up, or `n` if there is none.
pub open spec fn first_usable(
    entries: Seq<AuthorizedInvocation>,
    contract_id: Hash256,
    function: Symbol,
    n: nat,
) -> nat
    decreases n,
{
    if n == 0 {
        0
    } else {
        let k = first_usable(entries, contract_id, function, (n - 1) as nat);
        if k < n - 1 {
            k
        } else if n - 1 < entries.len() && entries[n - 1].contract_id == contract_id && entries[n
            - 1].function == function && !entries[n - 1].exhausted {
            (n - 1) as nat
        } else {
            n
        }
    }
}

impl AuthView {
    /// The manager after it was told that `frame` is pushed, and whether that went
    /// well. A frame of the host itself is not tracked. Tracking a contract frame is
    /// charged as a copy of the 32 bytes of its identifier.
    pub open spec fn push_frame(self, budget: Budget, frame: FrameView) -> (
        AuthView,
        Budget,
        Result<(), HostError>,
    ) {
        match frame.invocation() {
            None => (self, budget, Ok(())),
            Some(inv) => {
                let (b, r) = budget.spec_charge(ContractCostType::BytesClone, Some(32u64));
                if r is Err {
                    (self, b, r)
                } else {
                    (AuthView { call_stack: self.call_stack.push(inv), ..self }, b, Ok(()))
                }
            },
        }
    }

    /// The manager after it was told that the top frame is popped.
    pub open spec fn pop_frame(self) -> AuthView {
        if self.call_stack.len() == 0 {
            self
        } else {
            AuthView { call_stack: self.call_stack.drop_last(), ..self }
        }
    }

    /// What a rollback point keeps of the manager.
    pub open spec fn snapshot(self) -> AuthSnapshotView {
        AuthSnapshotView { entries: self.entries }
    }

    /// The manager put back to a snapshot.
    pub open spec fn rollback(self, snapshot: AuthSnapshotView) -> AuthView {
        AuthView { entries: snapshot.entries, ..self }
    }

    /// The manager after the last frame was popped: while recording, authentication is
    /// emulated for what was recorded, which is charged as one allocation for each
    /// recorded authorisation; while enforcing, nothing happens.
    pub open spec fn maybe_emulate_authentication(self, budget: Budget) -> (
        AuthView,
        Budget,
        Result<(), HostError>,
    ) {
        if !self.recording {
            (self, budget, Ok(()))
        } else {
            let (b, r) = budget.spec_charge(
                ContractCostType::HostMemAlloc,
                Some(self.entries.len() as u64),
            );
            if r is Err {
                (self, b, r)
            } else {
                (AuthView { emulated: true, ..self }, b, Ok(()))
            }
        }
    }

    /// The manager after an authorisation for a call of `function` on `contract_id`
    /// was asked for. While recording, the call is recorded as authorised. While
    /// enforcing, the first matching authorisation that is not used up is used up; if
    /// there is none the call is refused.
    pub open spec fn authorize(self, contract_id: Hash256, function: Symbol) -> (
        AuthView,
        Result<(), HostError>,
    ) {
        if self.recording {
            (
                AuthView {
                    entries: self.entries.push(
                        AuthorizedInvocation { contract_id, function, exhausted: true },
                    ),
                    ..self
                },
                Ok(()),
            )
        } else {
            let k = first_usable(self.entries, contract_id, function, self.entries.len());
            if k < self.entries.len() {
                (
                    AuthView {
                        entries: self.entries.update(
                            k as int,
                            AuthorizedInvocation { contract_id, function, exhausted: true },
                        ),
                        ..self
                    },
                    Ok(()),
                )
            } else {
                (self, Err(not_authorized()))
            }
        }
    }
}

impl AuthorizationManager {
    /// A manager that enforces the authorisations it is given.
    pub fn new_enforcing() -> (r: AuthorizationManager)
        ensures
            r@ == (AuthView {
                recording: false,
                in_use: false,
                call_stack: Seq::empty(),
                entries: Seq::empty(),
                emulated: false,
            }),
    {
        AuthorizationManager {
            recording: false,
            in_use: false,
            call_stack: Vec::new(),
            entries: Vec::new(),
            emulated: false,
        }
    }

    /// A manager that records the authorisations that are asked for.
    pub fn new_recording() -> (r: AuthorizationManager)
        ensures
            r@ == (AuthView {
                recording: true,
                in_use: false,
                call_stack: Seq::empty(),
                entries: Seq::empty(),
                emulated: false,
            }),
    {
        AuthorizationManager {
            recording: true,
            in_use: false,
            call_stack: Vec::new(),
            entries: Vec::new(),
            emulated: false,
        }
    }

    /// Whether the manager records instead of enforcing.
    pub fn is_recording(&self) -> (r: bool)
        ensures
            r == self@.recording,
    {
        self.recording
    }

    /// Whether authentication was emulated for what was recorded.
    pub fn has_emulated_authentication(&self) -> (r: bool)
        ensures
            r == self@.emulated,
    {
        self.emulated
    }

    /// The number of contract frames that the manager was told of and that are still
    /// on the stack.
    pub fn call_stack_len(&self) -> (r: usize)
        ensures
            r == self@.call_stack.len(),
    {
        self.call_stack.len()
    }

    /// The number of authorisations given or recorded.
    pub fn entries_len(&self) -> (r: usize)
        ensures
            r == self@.entries.len(),
    {
        self.entries.len()
    }

    /// The authorisation at a position.
    pub fn entry(&self, i: usize) -> (r: Option<AuthorizedInvocation>)
        ensures
            i < self@.entries.len() ==> r == Some(self@.entries[i as int]),
            i >= self@.entries.len() ==> r is None,
    {
        if i < self.entries.len() {
            Some(self.entries[i])
        } else {
            None
        }
    }

    /// Whether the manager is in the middle of its own work.
    pub fn is_in_use(&self) -> (r: bool)
        ensures
            r == self@.in_use,
    {
        self.in_use
    }

    /// Marks the manager as being, or no longer being, in the middle of its own work.
    pub fn set_in_use(&mut self, in_use: bool)
        ensures
            final(self)@ == (AuthView { in_use, ..old(self)@ }),
    {
        self.in_use = in_use;
    }

    /// Replaces the authorisations by `entries`, none of them used.
    pub fn set_authorization_entries(&mut self, entries: Vec<AuthorizedInvocation>)
        ensures
            final(self)@ == (AuthView { entries: entries@, ..old(self)@ }),
    {
        self.entries = entries;
    }

    /// Tells the manager that `frame` is pushed.
    pub fn push_frame(&mut self, budget: &mut Budget, frame: &Frame) -> (r: Result<(), HostError>)
        ensures
            final(self)@ == old(self)@.push_frame(*old(budget), frame@).0,
            *final(budget) == old(self)@.push_frame(*old(budget), frame@).1,
            r == old(self)@.push_frame(*old(budget), frame@).2,
    {
        match frame.invocation() {
            None => Ok(()),
            Some(inv) => {
                match budget.charge(ContractCostType::BytesClone, Some(32)) {
                    Err(e) => Err(e),
                    Ok(()) => {
                        self.call_stack.push(inv);
                        Ok(())
                    },
                }
            },
        }
    }

    /// Tells the manager that the top frame is popped.
    pub fn pop_frame(&mut self)
        ensures
            final(self)@ == old(self)@.pop_frame(),
    {
        let _ = self.call_stack.pop();
    }

    /// What a rollback point keeps of the manager.
    pub fn snapshot(&self) -> (r: AuthorizationManagerSnapshot)
        ensures
            r@ == self@.snapshot(),
    {
        let mut v: Vec<AuthorizedInvocation> = Vec::new();
        let mut i: usize = 0;
        while i < self.entries.len()
            invariant
                i <= self.entries@.len(),
                v@.len() == i,
                forall|j: int| 0 <= j < i ==> v@[j] == self.entries@[j],
            decreases self.entries@.len() - i,
        {
            v.push(self.entries[i]);
            i += 1;
        }
        assert(v@ =~= self.entries@);
        AuthorizationManagerSnapshot { entries: v }
    }

    /// Puts the manager back to a snapshot.
    pub fn rollback(&mut self, snapshot: AuthorizationManagerSnapshot)
        ensures
            final(self)@ == old(self)@.rollback(snapshot@),
    {
        self.entries = snapshot.entries;
    }

    /// Emulates authentication for what was recorded; does nothing while enforcing.
    pub fn maybe_emulate_authentication(&mut self, budget: &mut Budget) -> (r: Result<
        (),
        HostError,
    >)
        ensures
            final(self)@ == old(self)@.maybe_emulate_authentication(*old(budget)).0,
            *final(budget) == old(self)@.maybe_emulate_authentication(*old(budget)).1,
            r == old(self)@.maybe_emulate_authentication(*old(budget)).2,
    {
        if !self.recording {
            return Ok(());
        }
        let n: u64 = self.entries.len() as u64;
        match budget.charge(ContractCostType::HostMemAlloc, Some(n)) {
            Err(e) => Err(e),
            Ok(()) => {
                self.emulated = true;
                Ok(())
            },
        }
    }

    /// Asks for an authorisation of a call of `function` on `contract_id`.
    pub fn authorize(&mut self, contract_id: Hash256, function: Symbol) -> (r: Result<
        (),
        HostError,
    >)
        ensures
            final(self)@ == old(self)@.authorize(contract_id, function).0,
            r == old(self)@.authorize(contract_id, function).1,
    {
        if self.recording {
            self.entries.push(AuthorizedInvocation { contract_id, function, exhausted: true });
            return Ok(());
        }
        let mut i: usize = 0;
        while i < self.entries.len()
            invariant
                i <= self.entries@.len(),
                first_usable(self.entries@, contract_id, function, i as nat) == i,
                *self == *old(self),
                !self.recording,
            decreases self.entries@.len() - i,
        {
            let e = self.entries[i];
            if e.contract_id == contract_id && e.function.same(&function) && !e.exhausted {
                proof {
                    lemma_first_usable_found(
                        self.entries@,
                        contract_id,
                        function,
                        i as nat,
                        self.entries@.len(),
                    );
                }
                self.entries[i] = AuthorizedInvocation { contract_id, function, exhausted: true };
                return Ok(());
            }
            i += 1;
        }
        Err(HostError::new(ScErrorType::Auth, ScErrorCode::InvalidAction))
    }
}

/// Once a usable authorisation is found at position `k`, looking further does not
/// change the answer.
pub proof fn lemma_first_usable_found(
    entries: Seq<AuthorizedInvocation>,
    contract_id: Hash256,
    function: Symbol,
    k: nat,
    n: nat,
)
    requires
        k < n,
        k < entries.len(),
        first_usable(entries, contract_id, function, k) == k,
        entries[k as int].contract_id == contract_id,
        entries[k as int].function == function,
        !entries[k as int].exhausted,
    ensures
        first_usable(entries, contract_id, function, n) == k,
    decreases n,
{
    if n > k + 1 {
        lemma_first_usable_found(entries, contract_id, function, k, (n - 1) as nat);
    }
}

} // verus!
