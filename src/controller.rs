use vstd::prelude::*;
use crate::geometry::BLEND_SCALE;

verus! {

/// Whether ticks run relaxation steps.
#[derive(Clone, Copy, Debug, PartialEq, Eq, Structural)]
pub enum RunMode {
    /// Every tick runs one step.
    Continuous,
    /// Ticks do nothing.
    Paused,
    /// Paused, with one step asked for on the next tick.
    PausedStepPending,
}

pub open spec fn mode_after_toggle(m: RunMode) -> RunMode {
    match m {
        RunMode::Continuous => RunMode::Paused,
        _ => RunMode::Continuous,
    }
}

pub open spec fn mode_after_request(m: RunMode) -> RunMode {
    match m {
        RunMode::Paused => RunMode::PausedStepPending,
        _ => m,
    }
}

/// A tick in mode `m` runs a step.
pub open spec fn tick_steps(m: RunMode) -> bool {
    m != RunMode::Paused
}

pub open spec fn mode_after_tick(m: RunMode) -> RunMode {
    match m {
        RunMode::PausedStepPending => RunMode::Paused,
        _ => m,
    }
}

/// `blend + delta`, clamped to `[0, BLEND_SCALE]`.
pub open spec fn clamped_blend(blend: int, delta: int) -> int {
    if blend + delta < 0 {
        0
    } else if blend + delta > BLEND_SCALE {
        BLEND_SCALE as int
    } else {
        blend + delta
    }
}

/// The run-time parameters: run mode and blend factor (in hundredths).
pub struct Controller {
    mode: RunMode,
    blend: u32,
}

impl Controller {
    pub closed spec fn spec_mode(&self) -> RunMode {
        self.mode
    }

    pub closed spec fn spec_blend(&self) -> int {
        self.blend as int
    }

    pub open spec fn wf(&self) -> bool {
        0 <= self.spec_blend() <= BLEND_SCALE
    }

    /// Starts running continuously, moving points all the way to their
    /// centroids.
    pub fn new() -> (r: Controller)
        ensures
            r.wf(),
            r.spec_mode() == RunMode::Continuous,
            r.spec_blend() == BLEND_SCALE,
    {
        Controller { mode: RunMode::Continuous, blend: BLEND_SCALE }
    }

    pub fn mode(&self) -> (r: RunMode)
        ensures
            r == self.spec_mode(),
    {
        self.mode
    }

    pub fn blend_factor(&self) -> (r: u32)
        requires
            self.wf(),
        ensures
            r == self.spec_blend(),
            r <= BLEND_SCALE,
    {
        self.blend
    }

    /// Whether the next tick runs a step.
    pub fn will_step(&self) -> (r: bool)
        ensures
            r == tick_steps(self.spec_mode()),
    {
        match self.mode {
            RunMode::Paused => false,
            _ => true,
        }
    }

    /// Pauses a running controller; resumes a paused one, dropping any
    /// pending step.
    pub fn toggle_pause(&mut self)
        requires
            old(self).wf(),
        ensures
            final(self).wf(),
            final(self).spec_mode() == mode_after_toggle(old(self).spec_mode()),
            final(self).spec_blend() == old(self).spec_blend(),
    {
        self.mode = match self.mode {
            RunMode::Continuous => RunMode::Paused,
            _ => RunMode::Continuous,
        };
    }

    /// Asks for one step on the next tick; only has an effect while paused.
    pub fn request_step(&mut self)
        requires
            old(self).wf(),
        ensures
            final(self).wf(),
            final(self).spec_mode() == mode_after_request(old(self).spec_mode()),
            final(self).spec_blend() == old(self).spec_blend(),
    {
        if let RunMode::Paused = self.mode {
            self.mode = RunMode::PausedStepPending;
        }
    }

    /// Decides whether this tick runs a step, and consumes a pending single
    /// step.
    pub fn on_tick(&mut self) -> (step: bool)
        requires
            old(self).wf(),
        ensures
            final(self).wf(),
            step == tick_steps(old(self).spec_mode()),
            final(self).spec_mode() == mode_after_tick(old(self).spec_mode()),
            final(self).spec_blend() == old(self).spec_blend(),
            !step ==> *final(self) == *old(self),
    {
        match self.mode {
            RunMode::Continuous => true,
            RunMode::Paused => false,
            RunMode::PausedStepPending => {
                self.mode = RunMode::Paused;
                true
            },
        }
    }

    /// Adds `delta` hundredths to the blend factor, clamped to
    /// `[0, BLEND_SCALE]`; the run mode is kept.
    pub fn set_blend_factor(&mut self, delta: i32)
        requires
            old(self).wf(),
        ensures
            final(self).wf(),
            final(self).spec_blend() == clamped_blend(old(self).spec_blend(), delta as int),
            final(self).spec_mode() == old(self).spec_mode(),
    {
        let sum: i64 = self.blend as i64 + delta as i64;
        self.blend = if sum < 0 {
            0
        } else if sum > BLEND_SCALE as i64 {
            BLEND_SCALE
        } else {
            sum as u32
        };
    }
}

/// Asking for a step while running continuously changes nothing.
pub proof fn lemma_request_ignored_while_running()
    ensures
        mode_after_request(RunMode::Continuous) == RunMode::Continuous,
{
}

/// From continuous running, pause then a step request makes the next tick run
/// exactly one step and return to paused, after which ticks run none.
pub proof fn lemma_paused_request_runs_one_step(m: RunMode)
    requires
        m == RunMode::Continuous,
    ensures
        ({
            let requested = mode_after_request(mode_after_toggle(m));
            &&& tick_steps(requested)
            &&& mode_after_tick(requested) == RunMode::Paused
            &&& !tick_steps(mode_after_tick(requested))
        }),
{
}

} // verus!
