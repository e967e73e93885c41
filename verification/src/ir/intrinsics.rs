use vstd::prelude::*;

use crate::error::{EngineError, EngineResult, Unsupported};
use crate::text::{has_prefix, starts_with};

verus! {

/// The unsupported intrinsic family that `name` belongs to, if any.
pub open spec fn intrinsic_family(name: Seq<char>) -> Option<Unsupported> {
    if has_prefix(name, "llvm.call.preallocated."@) {
        Some(Unsupported::IntrinsicsPreAllocated)
    } else if has_prefix(name, "llvm.experimental.convergence."@) {
        Some(Unsupported::IntrinsicsConvergence)
    } else if has_prefix(name, "llvm.coro."@) {
        Some(Unsupported::IntrinsicsCoroutine)
    } else if has_prefix(name, "llvm.experimental.gc."@) {
        Some(Unsupported::IntrinsicsGC)
    } else if has_prefix(name, "llvm.eh."@) {
        Some(Unsupported::IntrinsicsEH)
    } else {
        None
    }
}

/// Rejects intrinsics whose family is not supported; other names are accepted.
pub fn filter_intrinsics(name: &str) -> (r: EngineResult<()>)
    ensures
        match intrinsic_family(name@) {
            None => r is Ok,
            Some(u) => r matches Err(EngineError::NotSupportedYet(v)) && v == u,
        },
{
    // pre-allocated args
    if starts_with(name, "llvm.call.preallocated.") {
        return Err(EngineError::NotSupportedYet(Unsupported::IntrinsicsPreAllocated));
    }
    // convergence
    if starts_with(name, "llvm.experimental.convergence.") {
        return Err(EngineError::NotSupportedYet(Unsupported::IntrinsicsConvergence));
    }
    // coroutine
    if starts_with(name, "llvm.coro.") {
        return Err(EngineError::NotSupportedYet(Unsupported::IntrinsicsCoroutine));
    }
    // garbage collection
    if starts_with(name, "llvm.experimental.gc.") {
        return Err(EngineError::NotSupportedYet(Unsupported::IntrinsicsGC));
    }
    // exception handling
    if starts_with(name, "llvm.eh.") {
        return Err(EngineError::NotSupportedYet(Unsupported::IntrinsicsEH));
    }
    // other intrinsics are okay
    Ok(())
}

} // verus!
