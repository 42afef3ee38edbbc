//! The Tokio runtime that a channel's reclaimer runs on.

use tokio::runtime::{Handle, TryCurrentError};
use vstd::prelude::*;

use crate::error::{CaducusError, CaducusErrorKind};

verus! {

/// `tokio::runtime::Handle`: a handle to a runtime, opaque.
#[verifier::external_type_specification]
#[verifier::external_body]
pub struct ExHandle(Handle);

/// `tokio::runtime::TryCurrentError`: why there is no ambient runtime, opaque.
#[verifier::external_type_specification]
#[verifier::external_body]
pub struct ExTryCurrentError(TryCurrentError);

/// `Handle::try_current` returns a handle to the runtime that the caller runs in, or an error if
/// there is none. Whether there is one depends on the calling thread: nothing is claimed of the
/// result.
pub assume_specification[ Handle::try_current ]() -> (current: Result<Handle, TryCurrentError>)
;

/// Whether `current` is what asking for the ambient runtime gave: a value that a call of
/// `Handle::try_current` returned.
pub open spec fn is_ambient(current: Result<Handle, TryCurrentError>) -> bool {
    call_ensures(Handle::try_current, (), current)
}

/// The choice of a runtime, where `current` is the outcome of asking for the ambient one: the
/// provided one, otherwise the ambient one, `NoRuntime` if there is neither.
pub open spec fn runtime_chosen(
    provided: Option<Handle>,
    current: Result<Handle, TryCurrentError>,
    result: Result<Handle, CaducusError>,
) -> bool {
    match (provided, current) {
        (Some(handle), _) => result == Ok::<Handle, CaducusError>(handle),
        (None, Ok(handle)) => result == Ok::<Handle, CaducusError>(handle),
        (None, Err(_)) => result matches Err(e) && e.kind is NoRuntime,
    }
}

/// The runtime to use: the provided one, otherwise the ambient one. `NoRuntime` if there is
/// neither.
pub fn choose_runtime(
    provided: Option<Handle>,
    current: Result<Handle, TryCurrentError>,
) -> (result: Result<Handle, CaducusError>)
    ensures
        runtime_chosen(provided, current, result),
{
    match provided {
        Some(handle) => Ok(handle),
        None => match current {
            Ok(handle) => Ok(handle),
            Err(_) => Err(CaducusError { kind: CaducusErrorKind::NoRuntime }),
        },
    }
}

/// The runtime to use: the provided one, otherwise that of the caller. `NoRuntime` if there is
/// neither.
pub fn resolve_runtime(provided: Option<Handle>) -> (result: Result<Handle, CaducusError>)
    ensures
        provided matches Some(handle) ==> result == Ok::<Handle, CaducusError>(handle),
        exists|current: Result<Handle, TryCurrentError>|
            {
                &&& provided is None ==> is_ambient(current)
                &&& #[trigger] runtime_chosen(provided, current, result)
            },
{
    match provided {
        Some(handle) => {
            let result = Ok(handle);
            assert(runtime_chosen(provided, Ok(handle), result));
            result
        },
        None => {
            let current = Handle::try_current();
            choose_runtime(None, current)
        },
    }
}

} // verus!
