//! The one reading of the wall clock the library makes: milliseconds since
//! the Unix epoch, stamped onto new packets and folded into room ids.

use vstd::prelude::*;

verus! {

/// Reads `std::time::SystemTime::now()` and measures it against
/// `UNIX_EPOCH`, returning the whole milliseconds elapsed, or `None` when
/// the system clock is set before the epoch. Nothing is claimed of the
/// value: it is whatever the system clock reads.
#[verifier::external_body]
pub(crate) fn millis_since_unix_epoch() -> (r: Option<u128>) {
    match std::time::SystemTime::now().duration_since(std::time::UNIX_EPOCH) {
        Ok(elapsed) => Some(elapsed.as_millis()),
        Err(_) => None,
    }
}

} // verus!
