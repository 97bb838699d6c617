//! The search clock: a start instant behind a mutex, read as elapsed milliseconds.

use vstd::prelude::*;

use std::sync::Mutex;
use std::time::Instant;

verus! {

/// The standard library's monotonic time stamp, carried through opaquely.
#[verifier::external_type_specification]
#[verifier::external_body]
pub struct ExInstant(std::time::Instant);

/// The standard library's mutex, carried through opaquely.
#[verifier::external_type_specification]
#[verifier::external_body]
#[verifier::reject_recursive_types(T)]
pub struct ExMutex<T: ?Sized>(std::sync::Mutex<T>);

/// `Instant::now`: the current reading of the monotonic clock. Nothing is
/// stated of the value, which depends on the time of the call.
#[verifier::external_body]
pub(crate) fn now() -> (r: Instant) {
    Instant::now()
}

/// `Mutex::new`: a mutex holding `start`. The content is not visible to
/// proofs, so nothing is stated of it.
#[verifier::external_body]
pub(crate) fn start_cell(start: Option<Instant>) -> (r: Mutex<Option<Instant>>) {
    Mutex::new(start)
}

/// `Mutex::lock`, then `Some(t)` is written into the cell. Locking panics only
/// when another thread panicked while holding the lock, which no code of this
/// library does.
#[verifier::external_body]
pub(crate) fn set_start(cell: &Mutex<Option<Instant>>, t: Instant) {
    *cell.lock().expect("start mutex poisoned") = Some(t);
}

/// `Mutex::lock`, then the cell's content is copied out. Nothing is stated of
/// the value, which another thread may have written.
#[verifier::external_body]
pub(crate) fn read_start(cell: &Mutex<Option<Instant>>) -> (r: Option<Instant>) {
    *cell.lock().expect("start mutex poisoned")
}

/// `Instant::elapsed`, in whole milliseconds (saturated to 64 bits). Nothing
/// is stated of the value, which depends on the time of the call.
#[verifier::external_body]
pub(crate) fn millis_since(t: Instant) -> (r: u64) {
    u64::try_from(t.elapsed().as_millis()).unwrap_or(u64::MAX)
}

} // verus!
