//! The cross-thread record behind the bridge: liveness flag, cycle clock
//! and meter values, all held in lock-free atomic cells so that the
//! real-time callback thread never blocks and observers can poll from any
//! thread.
//!
//! Every cell is an `atomic::Atomic` of the outside `atomic` crate, reached
//! through trusted wrappers below. The cells are opaque to the verifier, so
//! the contracts here state only per-call facts about the atomic
//! operations; the exact functional behaviour of the metering and of the
//! bridge decisions is stated and proved on the pure functions of
//! `meters` and on the sequential `bridge::JackHandler` model, which this
//! type drives with the same computations.
//!
//! Every operation completes in bounded time: the compare-and-swap retry
//! loops give up after a fixed number of attempts rather than risk an
//! unbounded stay on the real-time thread. A retry is needed only when a
//! concurrent writer moved the cell between the load and the swap, so the
//! bound is unreachable under sane contention.

use vstd::prelude::*;
use crate::bridge::{spec_effective, CallbackOutcome, Control};
use crate::meters::{batch_peak, vu_fold_batch, vu_weight_for_rate, WEIGHT_ONE};

verus! {

/// The outside `atomic` crate's generic lock-free cell.
#[verifier::external_type_specification]
#[verifier::external_body]
#[verifier::reject_recursive_types(T)]
pub struct ExAtomic<T>(atomic::Atomic<T>);

/// How many times a compare-and-swap loop retries before giving up, so
/// that every operation completes in bounded time.
pub const MAX_CAS_RETRIES: u64 = 64;

/// Relies on atomic::Atomic::new: creates a cell holding `v`.
#[verifier::external_body]
fn new_cell_bool(v: bool) -> atomic::Atomic<bool> {
    atomic::Atomic::new(v)
}

/// Relies on atomic::Atomic::new: creates a cell holding `v`.
#[verifier::external_body]
fn new_cell_u64(v: u64) -> atomic::Atomic<u64> {
    atomic::Atomic::new(v)
}

/// Relies on atomic::Atomic::load with relaxed ordering: returns the value
/// some thread stored; nothing more can be promised of a shared cell.
#[verifier::external_body]
fn load_bool_relaxed(cell: &atomic::Atomic<bool>) -> bool {
    cell.load(atomic::Ordering::Relaxed)
}

/// Relies on atomic::Atomic::store with relaxed ordering.
#[verifier::external_body]
fn store_bool_relaxed(cell: &atomic::Atomic<bool>, v: bool) {
    cell.store(v, atomic::Ordering::Relaxed);
}

/// Relies on atomic::Atomic::load with relaxed ordering.
#[verifier::external_body]
fn load_u64_relaxed(cell: &atomic::Atomic<u64>) -> u64 {
    cell.load(atomic::Ordering::Relaxed)
}

/// Relies on atomic::Atomic::load with acquire ordering: synchronizes with
/// the release store whose value it observes.
#[verifier::external_body]
fn load_u64_acquire(cell: &atomic::Atomic<u64>) -> u64 {
    cell.load(atomic::Ordering::Acquire)
}

/// Relies on atomic::Atomic::store with relaxed ordering.
#[verifier::external_body]
fn store_u64_relaxed(cell: &atomic::Atomic<u64>, v: u64) {
    cell.store(v, atomic::Ordering::Relaxed);
}

/// Relies on atomic::Atomic::store with release ordering: makes every
/// earlier write visible to an acquire load that observes `v`.
#[verifier::external_body]
fn store_u64_release(cell: &atomic::Atomic<u64>, v: u64) {
    cell.store(v, atomic::Ordering::Release);
}

/// Relies on atomic::Atomic::swap with relaxed ordering: installs `v` and
/// returns the previous value, whatever a concurrent writer left there.
#[verifier::external_body]
fn swap_u64_relaxed(cell: &atomic::Atomic<u64>, v: u64) -> u64 {
    cell.swap(v, atomic::Ordering::Relaxed)
}

/// Relies on atomic::Atomic::compare_exchange with relaxed orderings:
/// installs `new` exactly when the cell still holds `current`; on success
/// the returned previous value equals `current`, on failure it is the
/// differing value the cell held instead.
#[verifier::external_body]
fn cas_u64_relaxed(cell: &atomic::Atomic<u64>, current: u64, new: u64) -> (r: Result<u64, u64>)
    ensures
        (r matches Ok(prev) ==> prev == current),
        (r matches Err(prev) ==> prev != current),
{
    cell.compare_exchange(current, new, atomic::Ordering::Relaxed, atomic::Ordering::Relaxed)
}

/// Clamp a smoothed value read back from a shared cell into the meter's
/// well-formed range. Every value this module stores is already in range,
/// so the clamp is inert; it keeps the folding preconditions independent
/// of what a concurrent writer could in principle have left in the cell.
fn clamp_vu(v: u64) -> (r: u64)
    ensures
        r < WEIGHT_ONE,
        v < WEIGHT_ONE ==> r == v,
{
    if v < WEIGHT_ONE {
        v
    } else {
        WEIGHT_ONE - 1
    }
}

/// Clamp a decay weight read back from a shared cell into its range.
fn clamp_weight(v: u64) -> (r: u64)
    ensures
        1 <= r < WEIGHT_ONE,
        1 <= v < WEIGHT_ONE ==> r == v,
{
    if 1 <= v && v < WEIGHT_ONE {
        v
    } else {
        WEIGHT_ONE - 1
    }
}

/// The shared, atomically accessed record: alive flag, cycle clock, and
/// the two meter values, referenced by the real-time callbacks on one
/// side and by any number of polling observers on the other.
pub struct SharedBridgeState {
    /// True until the first fault, quit or unsupported reconfiguration.
    alive: atomic::Atomic<bool>,
    /// Host-engine clock at the end of the last processed cycle (µs).
    last_cycle_time: atomic::Atomic<u64>,
    /// Peak meter cell: a Q1.31 magnitude.
    peak_sample: atomic::Atomic<u64>,
    /// Loudness meter cell: a Q1.31 smoothed magnitude.
    vu_sample: atomic::Atomic<u64>,
    /// Loudness decay weight: a Q32.32 fraction.
    vu_weight: atomic::Atomic<u64>,
}

impl SharedBridgeState {
    /// Create a live shared record for a sampling rate, with its clock
    /// started at the host engine's current time and silent meters.
    pub fn new(sampling_rate: u32, start_time: u64) -> Self
        requires
            sampling_rate >= 1,
    {
        let w: u64 = vu_weight_for_rate(sampling_rate);
        SharedBridgeState {
            alive: new_cell_bool(true),
            last_cycle_time: new_cell_u64(start_time),
            peak_sample: new_cell_u64(0),
            vu_sample: new_cell_u64(0),
            vu_weight: new_cell_u64(w),
        }
    }

    /// Whether the audio thread is still alive; callable from any thread.
    pub fn is_alive(&self) -> bool {
        load_bool_relaxed(&self.alive)
    }

    /// Mark the audio thread as dead. Idempotent, one-directional.
    pub fn mark_dead(&self) {
        store_bool_relaxed(&self.alive, false);
    }

    /// Cycle clock with an acquire barrier: a consumer that reads it first
    /// also observes every meter write of the stamped cycle.
    pub fn read_cycle_end(&self) -> u64 {
        load_u64_acquire(&self.last_cycle_time)
    }

    /// Stamp the cycle's end time with a release barrier; must be the last
    /// shared-state mutation of a processing cycle.
    pub fn stamp_cycle_end(&self, t: u64) {
        store_u64_release(&self.last_cycle_time, t);
    }

    /// Feed one batch into the shared peak meter: compute the batch's own
    /// peak, then raise the cell to it unless a concurrent value at least
    /// as large makes the candidate irrelevant.
    pub fn integrate_peak(&self, data: &Vec<i32>) {
        let candidate: u64 = batch_peak(data);
        let mut current: u64 = load_u64_relaxed(&self.peak_sample);
        let mut attempts: u64 = 0;
        while candidate > current && attempts < MAX_CAS_RETRIES
            decreases MAX_CAS_RETRIES - attempts,
        {
            match cas_u64_relaxed(&self.peak_sample, current, candidate) {
                Ok(_) => {
                    return;
                },
                Err(observed) => {
                    current = observed;
                },
            }
            attempts = attempts + 1;
        }
    }

    /// Peak observed since the last reset, atomically reset to 0.
    pub fn read_and_reset_peak(&self) -> u64 {
        swap_u64_relaxed(&self.peak_sample, 0)
    }

    /// Feed one batch into the shared loudness meter: fold the batch from
    /// the loaded smoothed value with one decay-weight snapshot, then
    /// install it; on interference, refold from the newly observed value.
    pub fn integrate_loudness(&self, data: &Vec<i32>) {
        let w: u64 = clamp_weight(load_u64_relaxed(&self.vu_weight));
        let mut current: u64 = clamp_vu(load_u64_relaxed(&self.vu_sample));
        let mut attempts: u64 = 0;
        while attempts < MAX_CAS_RETRIES
            invariant
                current < WEIGHT_ONE,
                1 <= w < WEIGHT_ONE,
            decreases MAX_CAS_RETRIES - attempts,
        {
            let folded: u64 = vu_fold_batch(current, w, data);
            match cas_u64_relaxed(&self.vu_sample, current, folded) {
                Ok(_) => {
                    return;
                },
                Err(observed) => {
                    current = clamp_vu(observed);
                },
            }
            attempts = attempts + 1;
        }
    }

    /// Current smoothed loudness value.
    pub fn read_loudness(&self) -> u64 {
        load_u64_relaxed(&self.vu_sample)
    }

    /// Store the decay weight for a new sampling rate; affects only future
    /// `integrate_loudness` calls.
    pub fn update_sampling_rate(&self, sampling_rate: u32)
        requires
            sampling_rate >= 1,
    {
        store_u64_relaxed(&self.vu_weight, vu_weight_for_rate(sampling_rate));
    }

    /// Absorb the outcome of a guarded operation that ran: any quit —
    /// voluntary or abnormal — flips liveness to dead.
    pub fn absorb_outcome(&self, outcome: CallbackOutcome) -> (r: Control)
        ensures
            r == spec_effective(outcome),
    {
        let r: Control = match outcome {
            CallbackOutcome::Completed(c) => c,
            CallbackOutcome::AbnormalTermination => Control::Quit,
        };
        if r == Control::Quit {
            self.mark_dead();
        }
        r
    }

    /// One processing cycle on the real-time thread: integrate the batch
    /// into both meters, then stamp the cycle's end time with the release
    /// barrier — or refuse to run if already dead.
    pub fn process(&self, samples: &Vec<i32>, cycle_end: u64) -> Control {
        if !self.is_alive() {
            return Control::Quit;
        }
        self.integrate_peak(samples);
        self.integrate_loudness(samples);
        self.stamp_cycle_end(cycle_end);
        Control::Continue
    }

    /// One-time setup notice; nothing to prepare.
    pub fn thread_init(&self) -> Control {
        if !self.is_alive() {
            return Control::Quit;
        }
        Control::Continue
    }

    /// Host-initiated termination: drives the record to dead.
    pub fn shutdown(&self) -> (r: Control)
        ensures
            r == Control::Quit,
    {
        if !self.is_alive() {
            return Control::Quit;
        }
        self.mark_dead();
        Control::Quit
    }

    /// Freewheel transitions need no action: all timing decisions commit
    /// to the host engine's own clock and nothing is buffered against
    /// wall-clock intervals.
    pub fn freewheel(&self, enabled: bool) -> Control {
        let _ = enabled;
        if !self.is_alive() {
            return Control::Quit;
        }
        Control::Continue
    }

    /// Buffer size changes are unsupported by design: fatal.
    pub fn buffer_size(&self, frames: u32) -> (r: Control)
        ensures
            r == Control::Quit,
    {
        let _ = frames;
        if !self.is_alive() {
            return Control::Quit;
        }
        self.mark_dead();
        Control::Quit
    }

    /// Sampling rate changes are unsupported by design: fatal.
    pub fn sample_rate(&self, frames: u32) -> (r: Control)
        ensures
            r == Control::Quit,
    {
        let _ = frames;
        if !self.is_alive() {
            return Control::Quit;
        }
        self.mark_dead();
        Control::Quit
    }

    /// Dropped audio data; diagnostic only, non-fatal.
    pub fn xrun(&self) -> Control {
        if !self.is_alive() {
            return Control::Quit;
        }
        Control::Continue
    }
}

/// The non-real-time-facing read interface over the shared record:
/// liveness, clock, and meter readouts for polling observers.
pub struct JackInterface<'a> {
    /// The shared record the real-time callbacks write into.
    handler: &'a SharedBridgeState,
}

impl<'a> JackInterface<'a> {
    /// A read interface over a shared record.
    pub fn new(handler: &'a SharedBridgeState) -> Self {
        JackInterface { handler }
    }

    /// Whether the audio thread is still alive; poll this periodically.
    pub fn is_alive(&self) -> bool {
        self.handler.is_alive()
    }

    /// Host-engine clock as of the end of the last processed cycle, with
    /// an acquire barrier: read this first to get a consistent snapshot
    /// of that cycle's meter values. Calling it after the bridge died
    /// indicates a caller bug; the value is then frozen.
    pub fn next_time(&self) -> u64 {
        self.handler.read_cycle_end()
    }

    /// Peak since the last reset (Q1.31), atomically reset to 0.
    pub fn read_and_reset_peak(&self) -> u64 {
        self.handler.read_and_reset_peak()
    }

    /// Current smoothed loudness value (Q1.31).
    pub fn read_loudness(&self) -> u64 {
        self.handler.read_loudness()
    }
}

} // verus!
