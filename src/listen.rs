use vstd::prelude::*;
use crate::battery::{Battery, BatteryMonitor, announcement, battery_bucket};
use crate::calibration::{CalibrationData, deadline_after, push_step};

verus! {

/// Milliseconds between two status requests to a device.
pub const STATUS_INTERVAL_MS: u64 = 10000;

/// One outcome of a bounded read from a device, as the read loop sees it.
pub enum Report<S> {
    /// A status report with its raw battery byte.
    Status { battery: u8 },
    /// A streaming data report: whether the calibration chord and the reset
    /// chord are held, and the raw angular-rate sample if one was decoded.
    Motion { calibrate_chord: bool, reset_chord: bool, sample: Option<S> },
    /// Any other report, a timeout or a transient error.
    Other,
    /// The transport lost the device.
    Disconnected,
}

/// What the read loop does in answer to one report.
pub struct Reaction<S> {
    /// Request continuous streaming again.
    pub rearm_streaming: bool,
    /// A battery event to emit.
    pub battery: Option<Battery>,
    /// Emit a reset request.
    pub reset: bool,
    /// A full window of samples to derive a new calibration from.
    pub calibrate: Option<Vec<S>>,
    /// Emit a disconnect event and leave the read loop.
    pub disconnected: bool,
}

/// The decisions of one device's read loop; times are milliseconds elapsed
/// since the loop started.
pub struct ListenState<S, C> {
    pub battery: BatteryMonitor,
    pub last_status_request: Option<u64>,
    pub calibration: CalibrationData<S, C>,
}

/// Whether a status request is due at `elapsed`.
pub open spec fn status_due(last: Option<u64>, elapsed: u64) -> bool {
    match last {
        None => true,
        Some(t) => elapsed > t + STATUS_INTERVAL_MS,
    }
}

impl<S, C> ListenState<S, C> {
    pub open spec fn wf(&self) -> bool {
        self.calibration.wf()
    }

    /// A fresh loop: no battery announced, no status requested yet.
    pub fn new(calibration: Option<C>) -> (r: Self)
        ensures
            r.wf(),
            r.battery.last is None,
            r.last_status_request is None,
            !r.calibration.collecting,
            r.calibration.data@.len() == 0,
            r.calibration.calibration == calibration,
    {
        ListenState {
            battery: BatteryMonitor::new(),
            last_status_request: None,
            calibration: CalibrationData::new(calibration),
        }
    }

    /// Whether to send a status request now; when it says so, `elapsed`
    /// becomes the time of the last request.
    pub fn status_request_due(&mut self, elapsed: u64) -> (r: bool)
        requires
            old(self).wf(),
        ensures
            final(self).wf(),
            r == status_due(old(self).last_status_request, elapsed),
            r ==> final(self).last_status_request == Some(elapsed),
            !r ==> final(self).last_status_request == old(self).last_status_request,
            final(self).battery == old(self).battery,
            final(self).calibration == old(self).calibration,
    {
        let due = match self.last_status_request {
            None => true,
            Some(t) => elapsed >= t && elapsed - t > STATUS_INTERVAL_MS,
        };
        if due {
            self.last_status_request = Some(elapsed);
        }
        due
    }

    /// Decides what to do with one report read at `elapsed`.
    pub fn on_report(&mut self, elapsed: u64, report: Report<S>) -> (r: Reaction<S>)
        requires
            old(self).wf(),
        ensures
            final(self).wf(),
            final(self).last_status_request == old(self).last_status_request,
            final(self).calibration.calibration == old(self).calibration.calibration,
            match report {
                Report::Status { battery } => {
                    &&& r.rearm_streaming
                    &&& r.battery == announcement(old(self).battery.last, battery)
                    &&& final(self).battery.last == Some(battery_bucket(battery))
                    &&& !r.reset && r.calibrate is None && !r.disconnected
                    &&& final(self).calibration == old(self).calibration
                },
                Report::Motion { calibrate_chord, reset_chord, sample } => {
                    &&& !r.rearm_streaming && r.battery is None && !r.disconnected
                    &&& r.reset == reset_chord
                    &&& final(self).battery == old(self).battery
                    &&& motion_step(
                        old(self).calibration,
                        final(self).calibration,
                        elapsed,
                        calibrate_chord,
                        sample,
                        r.calibrate,
                    )
                },
                Report::Other => {
                    &&& !r.rearm_streaming && r.battery is None && !r.reset
                    &&& r.calibrate is None && !r.disconnected
                    &&& *final(self) == *old(self)
                },
                Report::Disconnected => {
                    &&& !r.rearm_streaming && r.battery is None && !r.reset
                    &&& r.calibrate is None && r.disconnected
                    &&& *final(self) == *old(self)
                },
            },
    {
        match report {
            Report::Status { battery } => {
                let level = self.battery.observe(battery);
                Reaction {
                    rearm_streaming: true,
                    battery: level,
                    reset: false,
                    calibrate: None,
                    disconnected: false,
                }
            },
            Report::Motion { calibrate_chord, reset_chord, sample } => {
                if calibrate_chord {
                    self.calibration.start_calibration_delayed(elapsed);
                }
                let mut calibrate: Option<Vec<S>> = None;
                if self.calibration.calibration.is_some() {
                    if let Some(s) = sample {
                        calibrate = self.calibration.push_data(elapsed, s);
                    }
                }
                Reaction {
                    rearm_streaming: false,
                    battery: None,
                    reset: reset_chord,
                    calibrate,
                    disconnected: false,
                }
            },
            Report::Other => Reaction {
                rearm_streaming: false,
                battery: None,
                reset: false,
                calibrate: None,
                disconnected: false,
            },
            Report::Disconnected => Reaction {
                rearm_streaming: false,
                battery: None,
                reset: false,
                calibrate: None,
                disconnected: true,
            },
        }
    }

    /// Installs the outcome of a calibration attempt.
    pub fn finish_calibration(&mut self, result: Option<C>)
        requires
            old(self).wf(),
        ensures
            final(self).wf(),
            final(self).battery == old(self).battery,
            final(self).last_status_request == old(self).last_status_request,
            final(self).calibration.collecting == old(self).calibration.collecting,
            final(self).calibration.data == old(self).calibration.data,
            result is Some ==> final(self).calibration.calibration == result,
            result is None ==> final(self).calibration.calibration
                == old(self).calibration.calibration,
    {
        self.calibration.finish_calibration(result);
    }
}

/// The window after a data report's calibration chord: re-armed with a new
/// deadline when the chord is held, as it was otherwise.
pub open spec fn armed_by_chord<S, C>(
    before: CalibrationData<S, C>,
    elapsed: u64,
    calibrate_chord: bool,
) -> CalibrationData<S, C> {
    if calibrate_chord {
        CalibrationData {
            collecting: true,
            start_offset: deadline_after(elapsed),
            data: before.data,
            calibration: before.calibration,
        }
    } else {
        before
    }
}

/// How a data report moves the calibration window: a held calibration
/// chord re-arms it first; then the sample, if there is one and a reference
/// exists, is offered to the window. Without a reference samples are dropped.
pub open spec fn motion_step<S, C>(
    before: CalibrationData<S, C>,
    after: CalibrationData<S, C>,
    elapsed: u64,
    calibrate_chord: bool,
    sample: Option<S>,
    out: Option<Vec<S>>,
) -> bool {
    let armed = armed_by_chord(before, elapsed, calibrate_chord);
    if before.calibration is Some && sample is Some {
        push_step(armed, after, elapsed, sample->Some_0, out)
    } else {
        after == armed && out is None
    }
}

} // verus!
