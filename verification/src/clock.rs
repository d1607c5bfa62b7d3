use vstd::prelude::*;

verus! {

/// Relies on std's SystemTime::now and SystemTime::duration_since: the
/// distance between the system clock and the Unix epoch in whole seconds,
/// and on which side of the epoch the clock stands (the Err arm of
/// duration_since carries the distance of a clock set before the epoch).
/// Neither call panics, whatever the clock holds. Nothing can be promised of
/// the reading itself.
#[verifier::external_body]
fn clock_since_epoch() -> (r: (bool, u64)) {
    match std::time::SystemTime::now().duration_since(std::time::UNIX_EPOCH) {
        Ok(d) => (false, d.as_secs()),
        Err(e) => (true, e.duration().as_secs()),
    }
}

/// The current Unix time in whole seconds: negative when the system clock
/// stands before the epoch, and clamped to the range of i64 for clock states
/// beyond it. Total: no clock state makes it panic.
pub fn now_seconds() -> i64 {
    let (before_epoch, secs) = clock_since_epoch();
    if before_epoch {
        if secs > i64::MAX as u64 {
            i64::MIN
        } else {
            -(secs as i64)
        }
    } else {
        if secs > i64::MAX as u64 {
            i64::MAX
        } else {
            secs as i64
        }
    }
}

} // verus!
