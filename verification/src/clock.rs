//! Reading the system clock.

use std::time::{SystemTime, UNIX_EPOCH};
use vstd::prelude::*;

verus! {

#[verifier::external_type_specification]
#[verifier::external_body]
pub struct ExSystemTime(SystemTime);

/// `SystemTime::now`: the current time; nothing is known of it.
#[verifier::external_body]
pub(crate) fn now() -> SystemTime {
    SystemTime::now()
}

/// `SystemTime::duration_since(UNIX_EPOCH)` in whole seconds; `None` for a
/// time before the epoch. Nothing is known of the value: it depends on the
/// time given.
#[verifier::external_body]
pub(crate) fn secs_since_epoch(t: &SystemTime) -> Option<u64> {
    match t.duration_since(UNIX_EPOCH) {
        Ok(d) => Some(d.as_secs()),
        Err(_) => None,
    }
}

} // verus!
