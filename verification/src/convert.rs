//! A general way to say that something can convert values of one type into values
//! of another, and may fail to.
use crate::host::Host;
use crate::val::{HostError, RawVal};
use crate::xdr::{ScVal, ScValView};
use vstd::prelude::*;

verus! {

/// General trait representing the ability of some object to perform a (possibly
/// unsuccessful) conversion between two other types.
pub trait Convert<F, T> {
    type Error: core::fmt::Debug;

    fn convert(&self, f: F) -> Result<T, Self::Error>;
}

/// The host converts its own values into self-contained values: it follows the
/// handles that they hold.
impl<C: Copy> Convert<RawVal, ScVal> for Host<C> {
    type Error = HostError;

    fn convert(&self, f: RawVal) -> (r: Result<ScVal, HostError>)
        ensures
            match r {
                Ok(v) => self@.from_host_val(f) == Ok::<ScValView, HostError>(v@),
                Err(e) => self@.from_host_val(f) == Err::<ScValView, HostError>(e),
            },
    {
        self.from_host_val(f)
    }
}

} // verus!
