//! Declarations of the diagnostic types that ride along with cancellation
//! and disposal records: a captured backtrace and an optional free-form
//! reason. Both are carried through the engine without being inspected.

use vstd::prelude::*;

verus! {

#[verifier::external_type_specification]
#[verifier::external_body]
pub struct ExBacktrace(backtrace::Backtrace);

#[verifier::external_type_specification]
#[verifier::external_body]
pub struct ExAnyhowError(anyhow::Error);

/// Relies on `backtrace::Backtrace::new`: captures the current call stack.
/// What it holds depends on where it is called, so nothing is stated of it;
/// the engine only carries it for later inspection.
#[verifier::external_body]
pub(crate) fn capture_backtrace() -> backtrace::Backtrace {
    backtrace::Backtrace::new()
}

} // verus!
