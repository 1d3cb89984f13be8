//! The clock of a level. Times are whole nanoseconds since the program
//! started; the driver reads the clock and hands the reading in.

use vstd::prelude::*;

verus! {

/// Nanoseconds in a millisecond.
pub const NANOS_PER_MILLI: u128 = 1_000_000;

/// Milliseconds in a second.
pub const MILLIS_PER_SECOND: u128 = 1000;

/// Counts the time that a level has taken.
#[derive(Clone, Copy, Debug, PartialEq, Eq, Structural)]
pub struct GameTime {
    /// When the level began.
    pub start: u128,
    /// When the level ended, once it has.
    pub end: Option<u128>,
}

/// A duration as a game shows it: whole seconds, and the milliseconds of the
/// second that has begun.
#[derive(Clone, Copy, Debug, PartialEq, Eq, Structural)]
pub struct ClockFace {
    pub seconds: u128,
    pub millis: u128,
}

impl GameTime {
    /// The clock does not end before it starts.
    pub open spec fn wf(&self) -> bool {
        self.end matches Some(end) ==> end >= self.start
    }

    /// The time from start to end, once the level has ended.
    pub open spec fn spec_final_time(&self) -> Option<u128> {
        match self.end {
            Some(end) => Some((end - self.start) as u128),
            None => None,
        }
    }

    /// The clock of a level that begins at `start`.
    pub fn new(start: u128) -> (clock: GameTime)
        ensures
            clock == (GameTime { start, end: None }),
            clock.wf(),
    {
        GameTime { start, end: None }
    }

    /// Starts the clock again at `now`.
    pub fn reset(&mut self, now: u128)
        ensures
            *final(self) == (GameTime { start: now, end: None }),
            final(self).wf(),
    {
        self.start = now;
        self.end = None;
    }

    /// The time from the start of the level to `now`.
    pub fn elapsed(&self, now: u128) -> (elapsed: u128)
        requires
            now >= self.start,
        ensures
            elapsed == now - self.start,
    {
        now - self.start
    }

    /// Stops the clock at `now`.
    pub fn finish(&mut self, now: u128)
        ensures
            *final(self) == (GameTime { start: old(self).start, end: Some(now) }),
            now >= old(self).start ==> final(self).wf(),
    {
        self.end = Some(now);
    }

    /// The time from start to end, once the level has ended.
    #[verifier::when_used_as_spec(spec_final_time)]
    pub fn final_time(&self) -> (time: Option<u128>)
        requires
            self.wf(),
        ensures
            time == self.spec_final_time(),
    {
        match self.end {
            Some(end) => Some(end - self.start),
            None => None,
        }
    }
}

/// What a clock shows of a duration of `nanos` nanoseconds.
pub open spec fn spec_clock_face(nanos: u128) -> ClockFace {
    ClockFace {
        seconds: nanos / (NANOS_PER_MILLI * MILLIS_PER_SECOND) as u128,
        millis: (nanos / NANOS_PER_MILLI) % MILLIS_PER_SECOND,
    }
}

/// What a clock shows of a duration of `nanos` nanoseconds.
#[verifier::when_used_as_spec(spec_clock_face)]
pub fn clock_face(nanos: u128) -> (face: ClockFace)
    ensures
        face == spec_clock_face(nanos),
        face.millis < MILLIS_PER_SECOND,
{
    ClockFace {
        seconds: nanos / (NANOS_PER_MILLI * MILLIS_PER_SECOND),
        millis: (nanos / NANOS_PER_MILLI) % MILLIS_PER_SECOND,
    }
}

/// Seconds and milliseconds of a clock face give the duration back in whole
/// milliseconds.
pub proof fn lemma_clock_face_is_the_duration(nanos: u128)
    ensures
        clock_face(nanos).seconds * MILLIS_PER_SECOND + clock_face(nanos).millis == nanos
            / NANOS_PER_MILLI,
{
    let millis = nanos as int / 1_000_000;
    assert(nanos as int / 1_000_000_000 == millis / 1000) by {
        vstd::arithmetic::div_mod::lemma_div_denominator(nanos as int, 1_000_000, 1000);
    }
    vstd::arithmetic::div_mod::lemma_fundamental_div_mod(millis, 1000);
}

} // verus!
