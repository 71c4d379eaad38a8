//! The fixed-step clock: a pure accumulator over integer microseconds.
//!
//! The frame driver measures how long the last frame took, hands the
//! elapsed time to `prepare_tick`, and then drains the accumulator in
//! fixed-size steps, one `fixed_tick` dispatch per step.

use vstd::prelude::*;

verus! {

/// A fixed-step accumulator.  All times are in microseconds.
pub struct FixedStep {
    pub frame_step_micros: u64,
    pub delta_time_micros: u64,
    pub accumulator_micros: u64,
}

impl FixedStep {
    /// A step of zero length could never drain the accumulator.
    pub open spec fn wf(self) -> bool {
        self.frame_step_micros >= 1
    }

    /// Creates a clock that steps in units of `frame_step_micros`.
    pub fn new(frame_step_micros: u64) -> (t: FixedStep)
        requires
            frame_step_micros >= 1,
        ensures
            t.wf(),
            t.frame_step_micros == frame_step_micros,
            t.delta_time_micros == 0,
            t.accumulator_micros == 0,
    {
        FixedStep { frame_step_micros, delta_time_micros: 0, accumulator_micros: 0 }
    }

    /// There is still accumulated time to drain.
    pub fn should_tick(&self) -> (b: bool)
        ensures
            b == (self.accumulator_micros >= 1),
    {
        self.accumulator_micros >= 1
    }

    /// Consumes one step from the accumulator: a full step while one fits,
    /// else whatever remains.  A non-empty accumulator strictly shrinks, so
    /// a drain loop terminates.
    pub fn tick(&mut self)
        requires
            old(self).wf(),
        ensures
            final(self).wf(),
            final(self).frame_step_micros == old(self).frame_step_micros,
            old(self).accumulator_micros < old(self).frame_step_micros ==> {
                &&& final(self).delta_time_micros == old(self).accumulator_micros
                &&& final(self).accumulator_micros == 0
            },
            old(self).accumulator_micros >= old(self).frame_step_micros ==> {
                &&& final(self).delta_time_micros == old(self).frame_step_micros
                &&& final(self).accumulator_micros == old(self).accumulator_micros - old(self).frame_step_micros
            },
            old(self).accumulator_micros >= 1 ==> final(self).accumulator_micros < old(self).accumulator_micros,
    {
        if self.accumulator_micros < self.frame_step_micros {
            self.delta_time_micros = self.accumulator_micros;
            self.accumulator_micros = 0;
        } else {
            self.delta_time_micros = self.frame_step_micros;
            self.accumulator_micros = self.accumulator_micros - self.frame_step_micros;
        }
    }

    /// Starts a frame: the whole measured elapsed time becomes the new
    /// accumulator and the frame's variable delta time.
    pub fn prepare_tick(&mut self, elapsed_micros: u64)
        requires
            old(self).wf(),
        ensures
            final(self).wf(),
            final(self).frame_step_micros == old(self).frame_step_micros,
            final(self).accumulator_micros == elapsed_micros,
            final(self).delta_time_micros == elapsed_micros,
    {
        self.accumulator_micros = elapsed_micros;
        self.delta_time_micros = elapsed_micros;
    }

    /// The delta time of the step consumed last.
    pub fn tick_delta_time(&self) -> (dt: u64)
        ensures
            dt == self.delta_time_micros,
    {
        self.delta_time_micros
    }
}

/// The world clock: today always a fixed-step accumulator, kept as a tagged
/// variant so other stepping policies can join it.
pub enum WorldTick {
    FixedStep(FixedStep),
}

impl WorldTick {
    pub open spec fn wf(self) -> bool {
        match self {
            WorldTick::FixedStep(t) => t.wf(),
        }
    }

    pub open spec fn step(self) -> FixedStep {
        match self {
            WorldTick::FixedStep(t) => t,
        }
    }

    /// There is still accumulated time to drain.
    pub fn should_tick(&self) -> (b: bool)
        ensures
            b == (self.step().accumulator_micros >= 1),
    {
        match self {
            WorldTick::FixedStep(x) => x.should_tick(),
        }
    }

    /// Consumes one step from the accumulator; see [`FixedStep::tick`].
    pub fn tick(&mut self)
        requires
            old(self).wf(),
        ensures
            final(self).wf(),
            final(self).step().frame_step_micros == old(self).step().frame_step_micros,
            old(self).step().accumulator_micros < old(self).step().frame_step_micros ==> {
                &&& final(self).step().delta_time_micros == old(self).step().accumulator_micros
                &&& final(self).step().accumulator_micros == 0
            },
            old(self).step().accumulator_micros >= old(self).step().frame_step_micros ==> {
                &&& final(self).step().delta_time_micros == old(self).step().frame_step_micros
                &&& final(self).step().accumulator_micros == old(self).step().accumulator_micros
                    - old(self).step().frame_step_micros
            },
            old(self).step().accumulator_micros >= 1 ==> final(self).step().accumulator_micros
                < old(self).step().accumulator_micros,
    {
        match self {
            WorldTick::FixedStep(x) => x.tick(),
        }
    }

    /// Starts a frame with the measured elapsed time.
    pub fn prepare_tick(&mut self, elapsed_micros: u64)
        requires
            old(self).wf(),
        ensures
            final(self).wf(),
            final(self).step().frame_step_micros == old(self).step().frame_step_micros,
            final(self).step().accumulator_micros == elapsed_micros,
            final(self).step().delta_time_micros == elapsed_micros,
    {
        match self {
            WorldTick::FixedStep(x) => x.prepare_tick(elapsed_micros),
        }
    }

    /// The delta time of the step consumed last.
    pub fn delta_time(&self) -> (dt: u64)
        ensures
            dt == self.step().delta_time_micros,
    {
        match self {
            WorldTick::FixedStep(x) => x.tick_delta_time(),
        }
    }
}

} // verus!
