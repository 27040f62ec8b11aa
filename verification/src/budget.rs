//! Resource metering: every metered operation charges a cost against a fixed limit,
//! and fails once the limit would be passed. Metering can be suspended, which is how
//! diagnostics run without consuming anything.
use crate::val::{HostError, ScErrorCode, ScErrorType};
use vstd::prelude::*;

verus! {

/// The operations that are metered.
#[derive(Clone, Copy, Debug, PartialEq, Eq, Structural)]
pub enum ContractCostType {
    /// Guarding one invocation frame.
    GuardFrame,
    /// Allocating one object of the object store.
    HostMemAlloc,
    /// Copying a run of bytes.
    BytesClone,
    /// Hashing a run of bytes with SHA-256.
    ComputeSha256Hash,
    /// Decoding an Ed25519 public key.
    ComputeEd25519PubKey,
}

/// The running total of what has been charged, and the limit it may not pass.
#[derive(Clone, Copy, Debug, PartialEq, Eq, Structural)]
pub struct Budget {
    pub limit: u64,
    pub consumed: u64,
    pub enabled: bool,
}

/// The fixed part of the cost of one operation of kind `ty`.
pub open spec fn cost_const(ty: ContractCostType) -> nat {
    match ty {
        ContractCostType::GuardFrame => 4050,
        ContractCostType::HostMemAlloc => 883,
        ContractCostType::BytesClone => 24,
        ContractCostType::ComputeSha256Hash => 2924,
        ContractCostType::ComputeEd25519PubKey => 25766,
    }
}

/// The part of the cost of kind `ty` that is paid once for every unit of input.
pub open spec fn cost_linear(ty: ContractCostType) -> nat {
    match ty {
        ContractCostType::GuardFrame => 0,
        ContractCostType::HostMemAlloc => 1,
        ContractCostType::BytesClone => 1,
        ContractCostType::ComputeSha256Hash => 33,
        ContractCostType::ComputeEd25519PubKey => 0,
    }
}

/// The cost of one operation of kind `ty` on `input` units; `None` stands for an
/// operation without input.
pub open spec fn spec_cost(ty: ContractCostType, input: Option<u64>) -> nat {
    match input {
        None => cost_const(ty),
        Some(n) => cost_const(ty) + cost_linear(ty) * (n as nat),
    }
}

/// The error that reports an exhausted budget.
pub open spec fn budget_exceeded() -> HostError {
    HostError::spec_new(ScErrorType::Budget, ScErrorCode::ExceededLimit)
}

impl Budget {
    /// The budget after a charge, and whether the charge was covered. While metering is
    /// suspended nothing is consumed. A charge that does not fit exhausts the budget.
    pub open spec fn spec_charge(self, ty: ContractCostType, input: Option<u64>) -> (
        Budget,
        Result<(), HostError>,
    ) {
        if !self.enabled {
            (self, Ok(()))
        } else if self.consumed + spec_cost(ty, input) > self.limit {
            (Budget { consumed: self.limit, ..self }, Err(budget_exceeded()))
        } else {
            (Budget { consumed: (self.consumed + spec_cost(ty, input)) as u64, ..self }, Ok(()))
        }
    }

    /// Whether a charge of kind `ty` on `input` units would be covered.
    pub open spec fn covers(self, ty: ContractCostType, input: Option<u64>) -> bool {
        self.spec_charge(ty, input).1 is Ok
    }

    /// A budget with nothing consumed yet.
    pub fn new(limit: u64) -> (r: Budget)
        ensures
            r == (Budget { limit, consumed: 0, enabled: true }),
    {
        Budget { limit, consumed: 0, enabled: true }
    }

    /// Charges the cost of one operation.
    pub fn charge(&mut self, ty: ContractCostType, input: Option<u64>) -> (r: Result<
        (),
        HostError,
    >)
        ensures
            *final(self) == old(self).spec_charge(ty, input).0,
            r == old(self).spec_charge(ty, input).1,
    {
        if !self.enabled {
            return Ok(());
        }
        let c: u128 = match ty {
            ContractCostType::GuardFrame => 4050,
            ContractCostType::HostMemAlloc => 883,
            ContractCostType::BytesClone => 24,
            ContractCostType::ComputeSha256Hash => 2924,
            ContractCostType::ComputeEd25519PubKey => 25766,
        };
        let l: u128 = match ty {
            ContractCostType::GuardFrame => 0,
            ContractCostType::HostMemAlloc => 1,
            ContractCostType::BytesClone => 1,
            ContractCostType::ComputeSha256Hash => 33,
            ContractCostType::ComputeEd25519PubKey => 0,
        };
        let n: u128 = match input {
            None => 0,
            Some(n) => n as u128,
        };
        assert(l * n <= 33 * 0xffff_ffff_ffff_ffff) by (nonlinear_arith)
            requires
                0 <= l <= 33,
                0 <= n <= 0xffff_ffff_ffff_ffff,
        ;
        let total: u128 = self.consumed as u128 + c + l * n;
        assert(total == old(self).consumed + spec_cost(ty, input)) by {
            if input is None {
                assert(l * n == 0) by (nonlinear_arith)
                    requires
                        n == 0,
                ;
            }
        }
        if total > self.limit as u128 {
            self.consumed = self.limit;
            Err(HostError::new(ScErrorType::Budget, ScErrorCode::ExceededLimit))
        } else {
            self.consumed = total as u64;
            Ok(())
        }
    }

    /// Suspends metering and returns whether it was on.
    pub fn suspend(&mut self) -> (was: bool)
        ensures
            was == old(self).enabled,
            *final(self) == (Budget { enabled: false, ..*old(self) }),
    {
        let was = self.enabled;
        self.enabled = false;
        was
    }

    /// Puts metering back to what [`Budget::suspend`] found.
    pub fn resume(&mut self, was: bool)
        ensures
            *final(self) == (Budget { enabled: was, ..*old(self) }),
    {
        self.enabled = was;
    }

    /// What is left before the limit.
    pub fn remaining(&self) -> (r: u64)
        ensures
            self.consumed <= self.limit ==> r == self.limit - self.consumed,
            self.consumed > self.limit ==> r == 0,
    {
        if self.consumed <= self.limit {
            self.limit - self.consumed
        } else {
            0
        }
    }
}

/// While metering is suspended a charge consumes nothing and is always covered.
pub proof fn lemma_suspended_charge_is_free(b: Budget, ty: ContractCostType, input: Option<u64>)
    requires
        !b.enabled,
    ensures
        b.spec_charge(ty, input) == (b, Ok::<(), HostError>(())),
{
}

} // verus!
