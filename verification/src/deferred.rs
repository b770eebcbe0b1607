//! Values that background work delivers later.

use vstd::prelude::*;

verus! {

/// Why a build produced nothing.
#[derive(Clone, Copy, Debug, PartialEq, Eq)]
pub enum BuildError {
    /// The graphics device refused the build, with this result code.
    Device(i32),
    /// The pipeline's table of shader handles does not hold one record per
    /// hitgroup of the pipeline.
    HandleTableMismatch,
}

/// The state of one piece of background work. `Pending` may change once, to
/// `Ready` or to `Failed`; those two are final.
#[derive(Debug)]
pub enum DeferredValue<T> {
    Pending,
    Ready(T),
    Failed(BuildError),
}

impl<T> DeferredValue<T> {
    /// The state that follows `self` when the work reports `outcome`.
    pub open spec fn resolved(self, outcome: Result<T, BuildError>) -> Self {
        match (self, outcome) {
            (DeferredValue::Pending, Ok(value)) => DeferredValue::Ready(value),
            (DeferredValue::Pending, Err(error)) => DeferredValue::Failed(error),
            _ => self,
        }
    }

    /// Whether the value has arrived.
    pub fn is_done(&self) -> (done: bool)
        ensures
            done == (*self is Ready),
    {
        match self {
            DeferredValue::Ready(_) => true,
            _ => false,
        }
    }

    /// Whether the work is still under way.
    pub fn is_pending(&self) -> (pending: bool)
        ensures
            pending == (*self is Pending),
    {
        match self {
            DeferredValue::Pending => true,
            _ => false,
        }
    }

    /// The value, if it has arrived. Never waits.
    pub fn try_get(&self) -> (value: Option<&T>)
        ensures
            match *self {
                DeferredValue::Ready(v) => value == Some(&v),
                _ => value is None,
            },
    {
        match self {
            DeferredValue::Ready(v) => Some(v),
            _ => None,
        }
    }

    /// Records how the work ended. A state that is final already stays as
    /// it is, and `outcome` is dropped; the result says whether `outcome`
    /// was taken.
    pub fn resolve(&mut self, outcome: Result<T, BuildError>) -> (taken: bool)
        ensures
            *final(self) == old(self).resolved(outcome),
            taken == (*old(self) is Pending),
    {
        if self.is_pending() {
            *self = match outcome {
                Ok(value) => DeferredValue::Ready(value),
                Err(error) => DeferredValue::Failed(error),
            };
            true
        } else {
            false
        }
    }
}

/// Once an outcome is recorded, it stays: another one changes nothing.
pub proof fn lemma_resolved_is_final<T>(
    value: DeferredValue<T>,
    first: Result<T, BuildError>,
    second: Result<T, BuildError>,
)
    ensures
        !(value.resolved(first) is Pending),
        value.resolved(first).resolved(second) == value.resolved(first),
        !(value is Pending) ==> value.resolved(first) == value,
{
}

} // verus!
