use vstd::prelude::*;

verus! {

/// Milliseconds per timer tick: the timers decay at 60 ticks per second.
pub const MS_PER_TIMER_TICK: u128 = 1000 / 60;

/// Ticks remaining on a timer whose expiry instant is `end_time` when the
/// clock reads `now`: zero at or past the expiry, otherwise the number of
/// whole ticks left, saturated to the 8-bit range.
pub open spec fn spec_remaining(end_time: u128, now: u128) -> u8 {
    if now >= end_time {
        0u8
    } else if (end_time - now) / (MS_PER_TIMER_TICK as int) > 255 {
        255u8
    } else {
        ((end_time - now) / (MS_PER_TIMER_TICK as int)) as u8
    }
}

/// Expiry instant recorded when a timer is set to `ticks` at instant `now`,
/// saturated to the clock's range.
pub open spec fn spec_expiry(now: u128, ticks: u8) -> u128 {
    if now + (ticks as int) * (MS_PER_TIMER_TICK as int) <= u128::MAX {
        (now + (ticks as int) * (MS_PER_TIMER_TICK as int)) as u128
    } else {
        u128::MAX
    }
}

/// Setting a timer and reading it back at the same instant yields the ticks
/// that were set; a read at or past the expiry instant yields zero.
pub proof fn lemma_timer_round_trip(now: u128, ticks: u8)
    requires
        now + (ticks as int) * (MS_PER_TIMER_TICK as int) <= u128::MAX,
    ensures
        spec_remaining(spec_expiry(now, ticks), now) == ticks,
        forall|later: u128|
            later >= spec_expiry(now, ticks) ==> spec_remaining(spec_expiry(now, ticks), later)
                == 0,
{
    if ticks > 0 {
        let end = spec_expiry(now, ticks);
        assert((end - now) / (MS_PER_TIMER_TICK as int) == ticks as int);
    }
}

/// Repeated reads without an intervening set monotonically approach zero.
pub proof fn lemma_remaining_monotone(end_time: u128, now1: u128, now2: u128)
    requires
        now1 <= now2,
    ensures
        spec_remaining(end_time, now1) >= spec_remaining(end_time, now2),
{
    if now2 < end_time {
        assert((end_time - now1) / (MS_PER_TIMER_TICK as int) >= (end_time - now2) / (
        MS_PER_TIMER_TICK as int)) by {
            vstd::arithmetic::div_mod::lemma_div_is_ordered(
                end_time - now2,
                end_time - now1,
                MS_PER_TIMER_TICK as int,
            );
        }
    }
}

/// Milliseconds since the Unix epoch, read from the wall clock.
///
/// Relies on std::time::SystemTime::now and SystemTime::duration_since: the
/// current wall-clock instant, as a duration past the epoch; a clock reading
/// earlier than the epoch is answered with zero.
#[verifier::external_body]
pub(crate) fn get_time_millis() -> u128 {
    match std::time::SystemTime::now().duration_since(std::time::UNIX_EPOCH) {
        Ok(d) => d.as_millis(),
        Err(_) => 0,
    }
}

/// A lazily evaluated countdown: it stores only an absolute expiry instant in
/// milliseconds, and the remaining ticks are computed on demand from the wall
/// clock.
#[derive(Debug)]
pub struct Timer {
    end_time: u128,
}

impl View for Timer {
    type V = u128;

    closed spec fn view(&self) -> u128 {
        self.end_time
    }
}

impl Timer {
    /// A timer that has already expired.
    pub fn new() -> (t: Timer)
        ensures
            t@ == 0,
    {
        Timer { end_time: 0 }
    }

    /// Ticks remaining relative to the given clock reading.
    pub fn get_timeout_at(&self, now: u128) -> (ticks: u8)
        ensures
            ticks == spec_remaining(self@, now),
    {
        if now >= self.end_time {
            return 0;
        }
        let left = (self.end_time - now) / MS_PER_TIMER_TICK;
        if left > 255 {
            255
        } else {
            left as u8
        }
    }

    /// Ticks remaining now. The clock reading is taken inside the call, so
    /// the result is only pinned down relative to some instant.
    pub fn get_timeout(&self) -> (ticks: u8)
        ensures
            exists|now: u128| ticks == spec_remaining(self@, now),
    {
        let now = get_time_millis();
        self.get_timeout_at(now)
    }

    /// Start a countdown of `ticks` ticks from the given clock reading.
    pub fn set_timeout_at(&mut self, now: u128, ticks: u8)
        ensures
            final(self)@ == spec_expiry(now, ticks),
    {
        let span = (ticks as u128) * MS_PER_TIMER_TICK;
        self.end_time = if now <= u128::MAX - span {
            now + span
        } else {
            u128::MAX
        };
    }

    /// Start a countdown of `ticks` ticks from the instant of the call.
    pub fn set_timeout(&mut self, ticks: u8)
        ensures
            exists|now: u128| final(self)@ == spec_expiry(now, ticks),
    {
        let now = get_time_millis();
        self.set_timeout_at(now, ticks);
    }
}

} // verus!
