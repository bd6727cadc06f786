//! The audio bridge: a state machine over the per-cycle and lifecycle
//! callbacks of a host audio engine.
//!
//! The bridge owns the liveness flag, the cycle clock and the two meters.
//! It starts `Alive` and can only ever move to the terminal `Dead` state:
//! every callback is routed through a fault boundary that skips the body
//! when the bridge is already dead and turns any quit outcome — voluntary
//! or abnormal — into the dead state.

use vstd::prelude::*;
use crate::meters::{
    spec_batch_peak,
    spec_max,
    spec_vu_fold,
    spec_vu_weight,
    SamplePeakMeter,
    VUMeter,
};

verus! {

/// The control signal a callback returns to the host engine.
#[derive(Clone, Copy, Debug, PartialEq, Eq, Structural)]
pub enum Control {
    /// Keep delivering cycles.
    Continue,
    /// Stop delivering cycles to this handler.
    Quit,
}

/// How a guarded operation ended: it completed with a signal, or it
/// terminated abnormally inside the containment boundary.
#[derive(Clone, Copy, Debug, PartialEq, Eq, Structural)]
pub enum CallbackOutcome {
    /// The operation ran to completion and returned this signal.
    Completed(Control),
    /// The operation terminated abnormally and was caught at the boundary.
    AbnormalTermination,
}

/// The effective signal of an outcome: abnormal termination is treated
/// identically to a voluntary quit.
pub open spec fn spec_effective(outcome: CallbackOutcome) -> Control {
    match outcome {
        CallbackOutcome::Completed(c) => c,
        CallbackOutcome::AbnormalTermination => Control::Quit,
    }
}

/// One callback delivered by the host engine.
pub enum BridgeEvent {
    /// A processing cycle: one batch of samples and the host-engine clock
    /// value at the end of the cycle, in microseconds.
    ProcessCycle { samples: Vec<i32>, cycle_end: u64 },
    /// One-time setup notice before steady-state callbacks begin.
    ThreadInit,
    /// Host-initiated termination notice.
    Shutdown,
    /// The host entered or left freewheel mode.
    Freewheel { enabled: bool },
    /// The host changed the buffer size (unsupported: fatal).
    BufferSizeChanged { frames: u32 },
    /// The host changed the sampling rate (unsupported: fatal).
    SampleRateChanged { frames: u32 },
    /// The host dropped a block of audio data; non-fatal.
    Xrun,
}

/// The bridge between the host engine's callbacks and its observers:
/// liveness flag, cycle clock, and the two meters it feeds.
pub struct JackHandler {
    /// True until the first fault, quit or unsupported reconfiguration.
    pub alive: bool,
    /// Host-engine clock as of the end of the last processed cycle, in
    /// microseconds; frozen once the bridge is dead.
    pub next_time: u64,
    /// Peak meter fed by every processed cycle.
    pub peak_meter: SamplePeakMeter,
    /// Loudness meter fed by every processed cycle.
    pub vu_meter: VUMeter,
}

impl JackHandler {
    /// A handler whose meters hold well-formed values.
    pub open spec fn wf(self) -> bool {
        &&& self.peak_meter.wf()
        &&& self.vu_meter.wf()
    }
}

/// The state after one callback: a dead bridge ignores every event; an
/// alive one processes cycles into the meters and the clock, quits on
/// shutdown and on unsupported reconfiguration, and ignores the rest.
pub open spec fn spec_step(s: JackHandler, e: BridgeEvent) -> JackHandler {
    if !s.alive {
        s
    } else {
        match e {
            BridgeEvent::ProcessCycle { samples, cycle_end } => JackHandler {
                alive: true,
                next_time: cycle_end,
                peak_meter: SamplePeakMeter {
                    peak_sample: spec_max(
                        s.peak_meter.peak_sample as int,
                        spec_batch_peak(samples@),
                    ) as u64,
                },
                vu_meter: VUMeter {
                    vu_sample: spec_vu_fold(
                        s.vu_meter.vu_sample as int,
                        s.vu_meter.vu_weight as int,
                        samples@,
                    ) as u64,
                    vu_weight: s.vu_meter.vu_weight,
                },
            },
            BridgeEvent::Shutdown => JackHandler { alive: false, ..s },
            BridgeEvent::BufferSizeChanged { .. } => JackHandler { alive: false, ..s },
            BridgeEvent::SampleRateChanged { .. } => JackHandler { alive: false, ..s },
            _ => s,
        }
    }
}

/// The signal returned for one callback: quit whenever the bridge is (or
/// just became) dead, continue otherwise.
pub open spec fn spec_signal(s: JackHandler, e: BridgeEvent) -> Control {
    if !s.alive {
        Control::Quit
    } else {
        match e {
            BridgeEvent::Shutdown => Control::Quit,
            BridgeEvent::BufferSizeChanged { .. } => Control::Quit,
            BridgeEvent::SampleRateChanged { .. } => Control::Quit,
            _ => Control::Continue,
        }
    }
}

/// What the host must guarantee for one callback: the cycle-end times it
/// delivers to a live bridge never run backwards on its own clock.
pub open spec fn spec_admissible(s: JackHandler, e: BridgeEvent) -> bool {
    match e {
        BridgeEvent::ProcessCycle { cycle_end, .. } => s.alive ==> cycle_end >= s.next_time,
        _ => true,
    }
}

/// The state after a whole sequence of callbacks.
pub open spec fn spec_run(s: JackHandler, es: Seq<BridgeEvent>) -> JackHandler
    decreases es.len(),
{
    if es.len() == 0 {
        s
    } else {
        spec_run(spec_step(s, es.first()), es.drop_first())
    }
}

impl JackHandler {
    /// Create a live bridge for a sampling rate, with its clock started
    /// at the host engine's current time.
    pub fn new(sampling_rate: u32, start_time: u64) -> (h: Self)
        requires
            sampling_rate >= 1,
        ensures
            h.alive,
            h.next_time == start_time,
            h.peak_meter.peak_sample == 0,
            h.vu_meter.vu_sample == 0,
            h.vu_meter.vu_weight == spec_vu_weight(sampling_rate as int),
            h.wf(),
    {
        JackHandler {
            alive: true,
            next_time: start_time,
            peak_meter: SamplePeakMeter::new(),
            vu_meter: VUMeter::new(sampling_rate),
        }
    }

    /// Whether the audio thread is still alive.
    pub fn is_alive(&self) -> (r: bool)
        ensures
            r == self.alive,
    {
        self.alive
    }

    /// Mark the audio thread as dead. Idempotent; never reversed.
    pub fn mark_dead(&mut self)
        ensures
            *final(self) == (JackHandler { alive: false, ..*old(self) }),
    {
        self.alive = false;
    }

    /// Host-engine clock as of the end of the last processed cycle.
    pub fn next_time(&self) -> (t: u64)
        ensures
            t == self.next_time,
    {
        self.next_time
    }

    /// Advance the cycle clock; the host clock never runs backwards.
    pub fn update_time(&mut self, t: u64)
        requires
            t >= old(self).next_time,
        ensures
            *final(self) == (JackHandler { next_time: t, ..*old(self) }),
    {
        self.next_time = t;
    }

    /// The entry half of the fault boundary: whether the guarded
    /// operation may run at all. A dead bridge runs nothing.
    pub fn guard_enter(&self) -> (run: bool)
        ensures
            run == self.alive,
    {
        self.alive
    }

    /// The exit half of the fault boundary: absorb the outcome of an
    /// operation that ran. Any quit — voluntary or abnormal — flips the
    /// bridge to dead; a continue leaves it untouched.
    pub fn guard_exit(&mut self, outcome: CallbackOutcome) -> (r: Control)
        ensures
            r == spec_effective(outcome),
            r == Control::Quit ==> *final(self) == (JackHandler { alive: false, ..*old(self) }),
            r == Control::Continue ==> *final(self) == *old(self),
    {
        let r: Control = match outcome {
            CallbackOutcome::Completed(c) => c,
            CallbackOutcome::AbnormalTermination => Control::Quit,
        };
        if r == Control::Quit {
            self.mark_dead();
        }
        r
    }

    /// One processing cycle: integrate the batch into both meters, then
    /// stamp the cycle's end time — or refuse to run if already dead.
    pub fn process(&mut self, samples: &Vec<i32>, cycle_end: u64) -> (r: Control)
        requires
            old(self).wf(),
            old(self).alive ==> cycle_end >= old(self).next_time,
        ensures
            final(self).wf(),
            !old(self).alive ==> r == Control::Quit && *final(self) == *old(self),
            old(self).alive ==> r == Control::Continue && final(self).alive,
            old(self).alive ==> final(self).next_time == cycle_end,
            old(self).alive ==> final(self).peak_meter.peak_sample == spec_max(
                old(self).peak_meter.peak_sample as int,
                spec_batch_peak(samples@),
            ),
            old(self).alive ==> final(self).vu_meter.vu_sample == spec_vu_fold(
                old(self).vu_meter.vu_sample as int,
                old(self).vu_meter.vu_weight as int,
                samples@,
            ),
            old(self).alive ==> final(self).vu_meter.vu_weight == old(self).vu_meter.vu_weight,
    {
        if !self.guard_enter() {
            return Control::Quit;
        }
        self.peak_meter.integrate(samples);
        self.vu_meter.integrate(samples);
        self.update_time(cycle_end);
        Control::Continue
    }

    /// One-time setup notice; no shared state changes.
    pub fn thread_init(&mut self) -> (r: Control)
        ensures
            *final(self) == *old(self),
            r == (if old(self).alive {
                Control::Continue
            } else {
                Control::Quit
            }),
    {
        if !self.guard_enter() {
            return Control::Quit;
        }
        Control::Continue
    }

    /// Host-initiated termination: drives the bridge to dead.
    pub fn shutdown(&mut self) -> (r: Control)
        ensures
            r == Control::Quit,
            *final(self) == (JackHandler { alive: false, ..*old(self) }),
    {
        if !self.guard_enter() {
            return Control::Quit;
        }
        self.mark_dead();
        Control::Quit
    }

    /// The host entered or left freewheel mode. The bridge commits to the
    /// host engine's own clock and buffers nothing keyed to wall-clock
    /// intervals, so both directions are a no-op.
    pub fn freewheel(&mut self, enabled: bool) -> (r: Control)
        ensures
            *final(self) == *old(self),
            r == (if old(self).alive {
                Control::Continue
            } else {
                Control::Quit
            }),
    {
        let _ = enabled;
        if !self.guard_enter() {
            return Control::Quit;
        }
        Control::Continue
    }

    /// Buffer size changes are unsupported by design: fatal.
    pub fn buffer_size(&mut self, frames: u32) -> (r: Control)
        ensures
            r == Control::Quit,
            *final(self) == (JackHandler { alive: false, ..*old(self) }),
    {
        let _ = frames;
        if !self.guard_enter() {
            return Control::Quit;
        }
        self.mark_dead();
        Control::Quit
    }

    /// Sampling rate changes are unsupported by design: fatal. The meters
    /// are left untouched — in particular the decay weight is not
    /// rederived, since no further cycle will be processed.
    pub fn sample_rate(&mut self, frames: u32) -> (r: Control)
        ensures
            r == Control::Quit,
            *final(self) == (JackHandler { alive: false, ..*old(self) }),
    {
        let _ = frames;
        if !self.guard_enter() {
            return Control::Quit;
        }
        self.mark_dead();
        Control::Quit
    }

    /// The host dropped audio data; diagnostic only, non-fatal.
    pub fn xrun(&mut self) -> (r: Control)
        ensures
            *final(self) == *old(self),
            r == (if old(self).alive {
                Control::Continue
            } else {
                Control::Quit
            }),
    {
        if !self.guard_enter() {
            return Control::Quit;
        }
        Control::Continue
    }

    /// Dispatch one host callback; the returned signal and the new state
    /// are exactly those of the transition function.
    pub fn handle_event(&mut self, event: &BridgeEvent) -> (r: Control)
        requires
            old(self).wf(),
            spec_admissible(*old(self), *event),
        ensures
            *final(self) == spec_step(*old(self), *event),
            r == spec_signal(*old(self), *event),
            final(self).wf(),
    {
        match event {
            BridgeEvent::ProcessCycle { samples, cycle_end } => self.process(
                samples,
                *cycle_end,
            ),
            BridgeEvent::ThreadInit => self.thread_init(),
            BridgeEvent::Shutdown => self.shutdown(),
            BridgeEvent::Freewheel { enabled } => self.freewheel(*enabled),
            BridgeEvent::BufferSizeChanged { frames } => self.buffer_size(*frames),
            BridgeEvent::SampleRateChanged { frames } => self.sample_rate(*frames),
            BridgeEvent::Xrun => self.xrun(),
        }
    }
}

/// Liveness is monotonic and the dead state is frozen: once the bridge is
/// dead, any further sequence of callbacks executes none of their bodies
/// and leaves the whole state — flag, clock, meters — exactly as it was.
pub proof fn lemma_dead_state_frozen(s: JackHandler, es: Seq<BridgeEvent>)
    requires
        !s.alive,
    ensures
        spec_run(s, es) == s,
        !spec_run(s, es).alive,
    decreases es.len(),
{
    if es.len() > 0 {
        lemma_dead_state_frozen(spec_step(s, es.first()), es.drop_first());
    }
}

/// The cycle clock never decreases across one admissible callback.
pub proof fn lemma_clock_monotone(s: JackHandler, e: BridgeEvent)
    requires
        spec_admissible(s, e),
    ensures
        spec_step(s, e).next_time >= s.next_time,
{
}

/// Whether every callback of a sequence is admissible in the state in
/// which it is delivered.
pub open spec fn spec_admissible_run(s: JackHandler, es: Seq<BridgeEvent>) -> bool
    decreases es.len(),
{
    if es.len() == 0 {
        true
    } else {
        spec_admissible(s, es.first()) && spec_admissible_run(
            spec_step(s, es.first()),
            es.drop_first(),
        )
    }
}

/// The cycle clock is non-decreasing across any admissible sequence of
/// callbacks: successive observers never see it run backwards.
pub proof fn lemma_clock_monotone_run(s: JackHandler, es: Seq<BridgeEvent>)
    requires
        spec_admissible_run(s, es),
    ensures
        spec_run(s, es).next_time >= s.next_time,
    decreases es.len(),
{
    if es.len() > 0 {
        lemma_clock_monotone(s, es.first());
        lemma_clock_monotone_run(spec_step(s, es.first()), es.drop_first());
    }
}

} // verus!
