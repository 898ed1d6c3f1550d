//! The lifecycle of the display worker: the decisions of the display
//! controller, from its state and what the host observed to its next state
//! and what the host must do.
//!
//! The host owns the worker thread. It asks the controller what to do,
//! performs it (spawn, stop request, join, detection, rendering) and reports
//! back.
use vstd::prelude::*;

use crate::driver::{driver_capability, driver_info, DisplayDriver};
use crate::names::chars_equal;
use crate::text::{concat2, str_chars};
use crate::types::{DeviceInfo, DisplayCapability, DisplayFrame, DisplayLoopEvent, Resolution};

verus! {

/// What a worker is to be started with.
pub enum WorkerStart<H, P> {
    /// A freshly detected device and its first frame.
    Detected { driver: DisplayDriver<H, P>, frame: DisplayFrame },
    /// The device that was in use, to be found again once the old worker
    /// has stopped.
    Reopen { info: DeviceInfo, capability: DisplayCapability, frame: DisplayFrame },
}

/// The state of the display worker.
pub enum DisplayState<H, P> {
    /// No worker.
    Idle,
    /// A worker is running.
    Running,
    /// The worker was asked to stop; a start may be queued for afterwards.
    Stopping { queued_start: Option<WorkerStart<H, P>> },
}

/// The device the controller knows of.
#[derive(Debug, Clone)]
pub enum DisplayStatus {
    Disconnected,
    Connected { info: DeviceInfo, capability: DisplayCapability },
}

/// Status messages for the user, from the worker's lifecycle events.
#[derive(Debug, Clone, PartialEq, Eq)]
pub enum DisplayNotice {
    Started(String),
    Reconnecting(String),
    TransferFailed(String),
    Failed(String),
    Stopped,
}

/// The preview resolution when no device is connected.
pub open spec fn fallback_resolution() -> Resolution {
    Resolution { width: 240, height: 240 }
}

/// The controller of the display worker.
pub struct DisplayController<H, P> {
    state: DisplayState<H, P>,
    status: DisplayStatus,
}

/// `a` and `b` describe the same device: same name, resolution and rotation.
pub open spec fn same_device(a: DeviceInfo, b: DeviceInfo) -> bool {
    a.name@ == b.name@ && a.resolution == b.resolution && a.rotation == b.rotation
}

/// `a` carries the same metadata as `b`.
pub open spec fn same_info(a: DeviceInfo, b: DeviceInfo) -> bool {
    &&& same_device(a, b)
    &&& a.target_fps == b.target_fps
    &&& a.keepalive_interval_secs == b.keepalive_interval_secs
}

/// `status` is the connected status of `driver`.
pub open spec fn status_follows<H, P>(status: DisplayStatus, driver: DisplayDriver<H, P>) -> bool {
    match status {
        DisplayStatus::Connected { info, capability } => same_info(info, driver_info(driver))
            && capability == driver_capability(driver),
        DisplayStatus::Disconnected => false,
    }
}

/// `start` is a reopen of the device of `status` with frame `f`.
pub open spec fn reopen_of<H, P>(
    start: Option<WorkerStart<H, P>>,
    status: DisplayStatus,
    f: DisplayFrame,
) -> bool {
    match start {
        Some(WorkerStart::Reopen { info, capability, frame }) => match status {
            DisplayStatus::Connected { info: i, capability: c } => frame == f && same_info(info, i)
                && capability == c,
            DisplayStatus::Disconnected => false,
        },
        _ => false,
    }
}

/// `state` is a stopping worker with a reopen of the device of `status`,
/// with frame `f`, queued behind it.
pub open spec fn reopen_queued<H, P>(
    state: DisplayState<H, P>,
    status: DisplayStatus,
    f: DisplayFrame,
) -> bool {
    match state {
        DisplayState::Stopping { queued_start: Some(WorkerStart::Reopen { info, capability, frame }) } =>
            match status {
            DisplayStatus::Connected { info: i, capability: c } => frame == f && same_info(info, i)
                && capability == c,
            DisplayStatus::Disconnected => false,
        },
        _ => false,
    }
}

/// The frame that counts for a device status: none without a device.
pub open spec fn usable_frame(status: DisplayStatus, prepared: Option<DisplayFrame>) -> Option<
    DisplayFrame,
> {
    match status {
        DisplayStatus::Connected { .. } => prepared,
        DisplayStatus::Disconnected => None,
    }
}

/// A copy of device metadata.
pub fn copy_info(info: &DeviceInfo) -> (c: DeviceInfo)
    ensures
        same_info(c, *info),
{
    DeviceInfo {
        name: info.name.clone(),
        resolution: info.resolution,
        rotation: info.rotation,
        target_fps: info.target_fps,
        keepalive_interval_secs: info.keepalive_interval_secs,
    }
}

/// The connected status of `driver`.
pub fn status_from_driver<H, P>(driver: &DisplayDriver<H, P>) -> (s: DisplayStatus)
    ensures
        status_follows(s, *driver),
{
    DisplayStatus::Connected { info: copy_info(driver.info()), capability: driver.capability() }
}

/// Whether a detected device is the one a reopen expects.
pub fn matches_expected(
    expected_info: &DeviceInfo,
    expected_capability: DisplayCapability,
    found_info: &DeviceInfo,
    found_capability: DisplayCapability,
) -> (b: bool)
    ensures
        b == (found_capability == expected_capability && same_device(*found_info, *expected_info)),
{
    let a = str_chars(found_info.name.as_str());
    let b = str_chars(expected_info.name.as_str());
    found_capability == expected_capability && chars_equal(&a, &b) && found_info.resolution.width
        == expected_info.resolution.width && found_info.resolution.height
        == expected_info.resolution.height && found_info.rotation == expected_info.rotation
}

/// The state after a stop: a worker that exists is stopping, with nothing
/// queued behind it.
pub open spec fn after_stop<H, P>(state: DisplayState<H, P>) -> DisplayState<H, P> {
    match state {
        DisplayState::Idle => DisplayState::Idle,
        _ => DisplayState::Stopping { queued_start: None },
    }
}

/// The state after the worker was checked, with `finished` telling whether
/// it had ended, and the start that is then due.
pub open spec fn after_join<H, P>(state: DisplayState<H, P>, finished: bool) -> (
    DisplayState<H, P>,
    Option<WorkerStart<H, P>>,
) {
    match state {
        DisplayState::Idle => (DisplayState::Idle, None),
        DisplayState::Running => if finished {
            (DisplayState::Idle, None)
        } else {
            (DisplayState::Running, None)
        },
        DisplayState::Stopping { queued_start } => if finished {
            (DisplayState::Idle, queued_start)
        } else {
            (DisplayState::Stopping { queued_start }, None)
        },
    }
}

/// Whether a worker runs after `start` was performed with `found` the
/// device the host found: a detected device always runs; a reopen runs only
/// when the device found again is the same device with the same capability.
pub open spec fn starts_worker<H, P>(start: WorkerStart<H, P>, found: Option<DisplayDriver<H, P>>) -> bool {
    match start {
        WorkerStart::Detected { .. } => true,
        WorkerStart::Reopen { info, capability, .. } => match found {
            Some(d) => driver_capability(d) == capability && same_device(driver_info(d), info),
            None => false,
        },
    }
}

/// The state after the start `due` (if any) was performed on `state`.
pub open spec fn after_start<H, P>(
    state: DisplayState<H, P>,
    due: Option<WorkerStart<H, P>>,
    found: Option<DisplayDriver<H, P>>,
) -> DisplayState<H, P> {
    match due {
        None => state,
        Some(start) => if starts_worker(start, found) {
            DisplayState::Running
        } else {
            DisplayState::Idle
        },
    }
}

/// `n` is the status message for `event` under device status `status`: a
/// start names the connected device, or "display" without one; the other
/// events carry their message over.
pub open spec fn notice_matches(n: DisplayNotice, event: DisplayLoopEvent, status: DisplayStatus) -> bool {
    match event {
        DisplayLoopEvent::Started => match n {
            DisplayNotice::Started(name) => name@ == match status {
                DisplayStatus::Connected { info, .. } => info.name@,
                DisplayStatus::Disconnected => "display"@,
            },
            _ => false,
        },
        DisplayLoopEvent::Reconnecting(m) => n == DisplayNotice::Reconnecting(m),
        DisplayLoopEvent::TransferFailed(m) => n == DisplayNotice::TransferFailed(m),
        DisplayLoopEvent::Failed(m) => n == DisplayNotice::Failed(m),
        DisplayLoopEvent::Stopped => n == DisplayNotice::Stopped,
    }
}

impl<H, P> DisplayController<H, P> {
    pub closed spec fn spec_state(&self) -> DisplayState<H, P> {
        self.state
    }

    pub closed spec fn spec_status(&self) -> DisplayStatus {
        self.status
    }

    /// An idle controller with the given device status.
    pub fn new(status: DisplayStatus) -> (c: Self)
        ensures
            c.spec_state() is Idle,
            c.spec_status() == status,
    {
        DisplayController { state: DisplayState::Idle, status }
    }

    pub fn state(&self) -> (s: &DisplayState<H, P>)
        ensures
            *s == self.spec_state(),
    {
        &self.state
    }

    pub fn status(&self) -> (s: &DisplayStatus)
        ensures
            *s == self.spec_status(),
    {
        &self.status
    }

    /// Metadata of the connected device, if any.
    pub fn device_info(&self) -> (info: Option<&DeviceInfo>)
        ensures
            match self.spec_status() {
                DisplayStatus::Connected { info: i, .. } => info == Some(&i),
                DisplayStatus::Disconnected => info is None,
            },
    {
        match &self.status {
            DisplayStatus::Connected { info, .. } => Some(info),
            DisplayStatus::Disconnected => None,
        }
    }

    /// The connected device's resolution, or 240x240 for the preview when
    /// there is none.
    pub fn resolution(&self) -> (r: Resolution)
        ensures
            r == match self.spec_status() {
                DisplayStatus::Connected { info, .. } => info.resolution,
                DisplayStatus::Disconnected => fallback_resolution(),
            },
    {
        match &self.status {
            DisplayStatus::Connected { info, .. } => info.resolution,
            DisplayStatus::Disconnected => Resolution::new(240, 240),
        }
    }

    /// The connected device's capability, if any.
    pub fn capability(&self) -> (c: Option<DisplayCapability>)
        ensures
            c == match self.spec_status() {
                DisplayStatus::Connected { capability, .. } => Some(capability),
                DisplayStatus::Disconnected => None,
            },
    {
        match &self.status {
            DisplayStatus::Connected { capability, .. } => Some(*capability),
            DisplayStatus::Disconnected => None,
        }
    }

    /// A worker exists, so its lifecycle must be polled.
    pub fn needs_lifecycle_poll(&self) -> (b: bool)
        ensures
            b == !(self.spec_state() is Idle),
    {
        !matches!(self.state, DisplayState::Idle)
    }

    /// Record the device status the host detected.
    pub fn set_status(&mut self, status: DisplayStatus)
        ensures
            final(self).spec_status() == status,
            final(self).spec_state() == old(self).spec_state(),
    {
        self.status = status;
    }

    /// Stop the display: a running worker is asked to stop (the result tells
    /// the host to send the request), and any queued start is dropped.
    pub fn stop(&mut self) -> (request_stop: bool)
        ensures
            request_stop == old(self).spec_state() is Running,
            final(self).spec_state() == after_stop(old(self).spec_state()),
            final(self).spec_status() == old(self).spec_status(),
    {
        match self.state {
            DisplayState::Idle => false,
            DisplayState::Running => {
                self.state = DisplayState::Stopping { queued_start: None };
                true
            },
            DisplayState::Stopping { .. } => {
                self.state = DisplayState::Stopping { queued_start: None };
                false
            },
        }
    }

    /// The worker was checked and `finished` tells whether it has ended
    /// (and was joined). A finished worker leaves the controller idle; a
    /// start queued behind a stopping worker is handed back to be performed.
    pub fn join_finished(&mut self, finished: bool) -> (start: Option<WorkerStart<H, P>>)
        ensures
            final(self).spec_status() == old(self).spec_status(),
            (final(self).spec_state(), start) == after_join(old(self).spec_state(), finished),
    {
        let mut state = DisplayState::Idle;
        std::mem::swap(&mut state, &mut self.state);
        match state {
            DisplayState::Idle => None,
            DisplayState::Running => {
                if !finished {
                    self.state = DisplayState::Running;
                }
                None
            },
            DisplayState::Stopping { queued_start } => {
                if finished {
                    queued_start
                } else {
                    self.state = DisplayState::Stopping { queued_start };
                    None
                }
            },
        }
    }

    /// A frame was presented while a worker exists: `prepared` is the frame
    /// encoded for the known device (`None` when the encoding failed; it
    /// counts for nothing without a device). A running worker gets the frame
    /// (returned to be submitted) or, without one, is stopped (the flag asks
    /// the host to send the stop request); a stopping worker gets a reopen of
    /// the same device queued behind it, or has its queued start dropped.
    pub fn present_to_worker(&mut self, prepared: Option<DisplayFrame>) -> (r: (
        Option<DisplayFrame>,
        bool,
    ))
        requires
            !(old(self).spec_state() is Idle),
        ensures
            final(self).spec_status() == old(self).spec_status(),
            match usable_frame(old(self).spec_status(), prepared) {
                Some(f) => if old(self).spec_state() is Running {
                    r == (Some(f), false) && final(self).spec_state() is Running
                } else {
                    r == (None::<DisplayFrame>, false) && reopen_queued(
                        final(self).spec_state(),
                        old(self).spec_status(),
                        f,
                    )
                },
                None => {
                    &&& r == (None::<DisplayFrame>, old(self).spec_state() is Running)
                    &&& final(self).spec_state() == after_stop(old(self).spec_state())
                },
            },
    {
        let usable = match &self.status {
            DisplayStatus::Connected { .. } => prepared,
            DisplayStatus::Disconnected => None,
        };
        match usable {
            None => {
                let req = self.stop();
                (None, req)
            },
            Some(frame) => {
                if matches!(self.state, DisplayState::Running) {
                    return (Some(frame), false);
                }
                if let DisplayStatus::Connected { info, capability } = &self.status {
                    let info = copy_info(info);
                    let capability = *capability;
                    self.state = DisplayState::Stopping {
                        queued_start: Some(WorkerStart::Reopen { info, capability, frame }),
                    };
                }
                (None, false)
            },
        }
    }

    /// The frame to hand to the worker for a composited image: `prepared`
    /// is that image encoded for the known device. Only a running worker
    /// with a known device takes frames.
    pub fn frame_to_submit(&self, prepared: Option<DisplayFrame>) -> (f: Option<DisplayFrame>)
        ensures
            f == (if self.spec_state() is Running {
                usable_frame(self.spec_status(), prepared)
            } else {
                None
            }),
    {
        if matches!(self.state, DisplayState::Running) {
            match &self.status {
                DisplayStatus::Connected { .. } => prepared,
                DisplayStatus::Disconnected => None,
            }
        } else {
            None
        }
    }

    /// A frame was presented with no worker: `detected` is the device the
    /// host found (the status follows it) and `prepared` its first frame,
    /// encoded for it. A worker is to be started when both are there.
    pub fn present_when_idle(
        &mut self,
        detected: Option<DisplayDriver<H, P>>,
        prepared: Option<DisplayFrame>,
    ) -> (start: Option<WorkerStart<H, P>>)
        requires
            old(self).spec_state() is Idle,
        ensures
            final(self).spec_state() is Idle,
            match detected {
                None => start is None && final(self).spec_status() is Disconnected,
                Some(d) => {
                    &&& status_follows(final(self).spec_status(), d)
                    &&& start == match prepared {
                        None => None,
                        Some(f) => Some(WorkerStart::Detected { driver: d, frame: f }),
                    }
                },
            },
    {
        match detected {
            None => {
                self.status = DisplayStatus::Disconnected;
                None
            },
            Some(driver) => {
                self.status = status_from_driver(&driver);
                match prepared {
                    None => None,
                    Some(frame) => Some(WorkerStart::Detected { driver, frame }),
                }
            },
        }
    }

    /// Start a worker. A detected device is used as is; a reopen uses the
    /// device the host found now (`found`, which the status follows), only
    /// when it is the same device with the same capability. The result is
    /// what the worker is to run with (the controller is then running), or
    /// `None` (the controller stays idle).
    pub fn start(&mut self, start: WorkerStart<H, P>, found: Option<DisplayDriver<H, P>>) -> (run:
        Option<(DisplayDriver<H, P>, DisplayFrame)>)
        requires
            old(self).spec_state() is Idle,
        ensures
            final(self).spec_state() == after_start(old(self).spec_state(), Some(start), found),
            match start {
                WorkerStart::Detected { driver, frame } => {
                    &&& run == Some((driver, frame))
                    &&& final(self).spec_state() is Running
                    &&& status_follows(final(self).spec_status(), driver)
                },
                WorkerStart::Reopen { info, capability, frame } => match found {
                    None => {
                        &&& run is None
                        &&& final(self).spec_state() is Idle
                        &&& final(self).spec_status() is Disconnected
                    },
                    Some(d) => {
                        &&& status_follows(final(self).spec_status(), d)
                        &&& if driver_capability(d) == capability && same_device(
                            driver_info(d),
                            info,
                        ) {
                            run == Some((d, frame)) && final(self).spec_state() is Running
                        } else {
                            run is None && final(self).spec_state() is Idle
                        }
                    },
                },
            },
    {
        match start {
            WorkerStart::Detected { driver, frame } => {
                self.status = status_from_driver(&driver);
                self.state = DisplayState::Running;
                Some((driver, frame))
            },
            WorkerStart::Reopen { info, capability, frame } => match found {
                None => {
                    self.status = DisplayStatus::Disconnected;
                    None
                },
                Some(driver) => {
                    self.status = status_from_driver(&driver);
                    if matches_expected(&info, capability, driver.info(), driver.capability()) {
                        self.state = DisplayState::Running;
                        Some((driver, frame))
                    } else {
                        None
                    }
                },
            },
        }
    }

    /// The status messages for the events a worker reported, in order.
    pub fn notices_for(&self, events: &Vec<DisplayLoopEvent>) -> (ns: Vec<DisplayNotice>)
        ensures
            ns.len() == events.len(),
            forall|i: int|
                0 <= i < events.len() ==> notice_matches(
                    #[trigger] ns[i],
                    events[i],
                    self.spec_status(),
                ),
    {
        let mut ns: Vec<DisplayNotice> = Vec::new();
        let mut idx: usize = 0;
        while idx < events.len()
            invariant
                idx <= events.len(),
                ns.len() == idx,
                forall|i: int|
                    0 <= i < idx ==> notice_matches(#[trigger] ns[i], events[i], self.spec_status()),
            decreases events.len() - idx,
        {
            let n = self.notice_for(&events[idx]);
            ns.push(n);
            idx = idx + 1;
        }
        ns
    }

    /// The status message for a worker event; a start names the device.
    pub fn notice_for(&self, event: &DisplayLoopEvent) -> (n: DisplayNotice)
        ensures
            notice_matches(n, *event, self.spec_status()),
    {
        match event {
            DisplayLoopEvent::Started => {
                let name = match &self.status {
                    DisplayStatus::Connected { info, .. } => info.name.clone(),
                    DisplayStatus::Disconnected => "display".to_owned(),
                };
                DisplayNotice::Started(name)
            },
            DisplayLoopEvent::Reconnecting(m) => DisplayNotice::Reconnecting(m.clone()),
            DisplayLoopEvent::TransferFailed(m) => DisplayNotice::TransferFailed(m.clone()),
            DisplayLoopEvent::Failed(m) => DisplayNotice::Failed(m.clone()),
            DisplayLoopEvent::Stopped => DisplayNotice::Stopped,
        }
    }
}

/// The status line the user sees for a notice: the device shown on, or
/// what went wrong; a stop changes nothing.
pub open spec fn status_line(n: DisplayNotice) -> Option<Seq<char>> {
    match n {
        DisplayNotice::Started(name) => Some("Displaying on "@ + name@),
        DisplayNotice::Reconnecting(m) => Some("Display reconnecting: "@ + m@),
        DisplayNotice::TransferFailed(m) => Some("Display transfer failed: "@ + m@),
        DisplayNotice::Failed(m) => Some("Display failed: "@ + m@),
        DisplayNotice::Stopped => None,
    }
}

/// The status line for a display notice, if it sets one.
pub fn status_message(notice: &DisplayNotice) -> (m: Option<String>)
    ensures
        match m {
            Some(s) => status_line(*notice) == Some(s@),
            None => status_line(*notice) is None,
        },
{
    match notice {
        DisplayNotice::Started(name) => Some(concat2("Displaying on ", name.as_str())),
        DisplayNotice::Reconnecting(m) => Some(concat2("Display reconnecting: ", m.as_str())),
        DisplayNotice::TransferFailed(m) => Some(concat2("Display transfer failed: ", m.as_str())),
        DisplayNotice::Failed(m) => Some(concat2("Display failed: ", m.as_str())),
        DisplayNotice::Stopped => None,
    }
}

/// A stop leaves a stopping worker with nothing queued; a second stop
/// changes nothing.
pub proof fn lemma_stop_is_idempotent<H, P>(state: DisplayState<H, P>)
    ensures
        after_stop(after_stop(state)) == after_stop(state),
        !(state is Idle) ==> after_stop(state) == (DisplayState::<H, P>::Stopping {
            queued_start: None,
        }),
{
}

/// Once stopped, a worker that has finished leaves the controller idle with
/// nothing to start: a stop cancels any queued restart.
pub proof fn lemma_stop_then_finish_is_idle<H, P>(state: DisplayState<H, P>)
    ensures
        after_join(after_stop(state), true) == (DisplayState::<H, P>::Idle, None::<
            WorkerStart<H, P>,
        >),
{
}

/// A reopen queued behind a stopping worker is handed back, with its frame
/// and the device it was queued for, once that worker has finished.
pub proof fn lemma_queued_reopen_is_started<H, P>(
    state: DisplayState<H, P>,
    status: DisplayStatus,
    f: DisplayFrame,
)
    requires
        reopen_queued(state, status, f),
    ensures
        after_join(state, true).0 is Idle,
        reopen_of(after_join(state, true).1, status, f),
{
}

/// A worker that has not finished keeps the controller as it was.
pub proof fn lemma_unfinished_worker_keeps_state<H, P>(state: DisplayState<H, P>)
    ensures
        after_join(state, false) == (state, None::<WorkerStart<H, P>>),
{
}

/// Checking a stopping worker and then performing the start it hands back
/// (`join_finished`, then `start` with `found` the device the host found):
/// a worker that has not finished stays stopping with its queued start and
/// nothing is started; a finished one leaves the controller idle when
/// nothing was queued, running a queued detected device, and running a
/// queued reopen exactly when the device found again is the same device
/// with the same capability.
pub proof fn lemma_join_then_start<H, P>(
    queued: Option<WorkerStart<H, P>>,
    finished: bool,
    found: Option<DisplayDriver<H, P>>,
)
    ensures
        ({
            let (joined, due) = after_join(DisplayState::Stopping { queued_start: queued }, finished);
            let last = after_start(joined, due, found);
            &&& !finished ==> due is None && last == DisplayState::Stopping { queued_start: queued }
            &&& finished ==> joined is Idle && due == queued
            &&& finished ==> match queued {
                None => last is Idle,
                Some(WorkerStart::Detected { .. }) => last is Running,
                Some(WorkerStart::Reopen { info, capability, .. }) => if found matches Some(d)
                    && driver_capability(d) == capability && same_device(driver_info(d), info) {
                    last is Running
                } else {
                    last is Idle
                },
            }
        }),
{
}

} // verus!
