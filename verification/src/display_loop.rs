//! The decisions of the display loops that feed a device.
//!
//! A native device is streamed to: the latest JPEG is sent on every tick,
//! with a keepalive when the device's interval has passed, and a failed
//! transfer leads to a reconnect. A liquidctl device is updated by file
//! transfer, only when the PNG content changed. The host runs the loop,
//! performs the I/O and the sleeps, and hands the outcomes back here.
use vstd::prelude::*;

use crate::text::concat2;
use crate::types::{DisplayFrame, DisplayLoopEvent};

verus! {

/// How long the file-transfer loop waits between polls, in milliseconds.
pub const FILE_TRANSFER_POLL_MS: u64 = 200;

/// How long to wait between reconnection attempts, in milliseconds.
pub const RECONNECT_DELAY_MS: u64 = 2000;

/// The bytes of `a` and `b` are the same.
pub fn bytes_equal(a: &Vec<u8>, b: &Vec<u8>) -> (eq: bool)
    ensures
        eq == (a@ == b@),
{
    if a.len() != b.len() {
        return false;
    }
    let mut i: usize = 0;
    while i < a.len()
        invariant
            a@.len() == b@.len(),
            forall|k: int| 0 <= k < i ==> a@[k] == b@[k],
        decreases a@.len() - i,
    {
        if a[i] != b[i] {
            return false;
        }
        i = i + 1;
    }
    assert(a@ =~= b@);
    true
}

/// A copy of `bytes`.
pub fn copy_bytes(bytes: &Vec<u8>) -> (c: Vec<u8>)
    ensures
        c@ == bytes@,
{
    let mut c: Vec<u8> = Vec::new();
    let mut i: usize = 0;
    while i < bytes.len()
        invariant
            i <= bytes.len(),
            c@ == bytes@.subrange(0, i as int),
        decreases bytes.len() - i,
    {
        c.push(bytes[i]);
        i = i + 1;
    }
    assert(c@ =~= bytes@);
    c
}

/// The JPEG the streaming loop shows after reading the shared frame: a
/// non-empty JPEG that differs from the current one replaces it; anything
/// else leaves the current one.
pub open spec fn next_jpeg(shared: DisplayFrame, current: Seq<u8>) -> Seq<u8> {
    match shared {
        DisplayFrame::StreamingJpeg(bytes) => if bytes@.len() > 0 && bytes@ != current {
            bytes@
        } else {
            current
        },
        DisplayFrame::FileTransferPng(_) => current,
    }
}

/// The PNG the file-transfer loop is to write and send: a non-empty PNG
/// that differs from the last one written.
pub open spec fn pending_png(shared: DisplayFrame, last_sent: Seq<u8>) -> Option<Seq<u8>> {
    match shared {
        DisplayFrame::FileTransferPng(bytes) => if bytes@.len() > 0 && bytes@ != last_sent {
            Some(bytes@)
        } else {
            None
        },
        DisplayFrame::StreamingJpeg(_) => None,
    }
}

/// The pause between two streamed frames, in nanoseconds, for a device
/// that shows `target_fps` frames per second.
pub fn frame_interval_nanos(target_fps: u32) -> (n: u64)
    requires
        target_fps > 0,
    ensures
        n == 1_000_000_000u64 / (target_fps as u64),
{
    1_000_000_000u64 / (target_fps as u64)
}

/// What the streaming loop does next in a tick.
#[derive(Debug, Clone, Copy, PartialEq, Eq, Structural)]
pub enum StreamingAction {
    /// Send the current JPEG.
    SendFrame,
    /// Send a keepalive.
    SendKeepalive,
    /// Sleep until the next tick.
    Sleep,
}

/// The state of the streaming loop of a native device.
pub struct StreamingLoop {
    current: Vec<u8>,
    keepalive_interval_ms: u64,
    last_keepalive_ms: u64,
}

impl StreamingLoop {
    pub closed spec fn spec_current(&self) -> Seq<u8> {
        self.current@
    }

    pub closed spec fn spec_keepalive_interval_ms(&self) -> u64 {
        self.keepalive_interval_ms
    }

    pub closed spec fn spec_last_keepalive_ms(&self) -> u64 {
        self.last_keepalive_ms
    }

    /// A loop that has shown nothing yet, whose keepalive clock starts at
    /// `now_ms`.
    pub fn new(keepalive_interval_ms: u64, now_ms: u64) -> (l: Self)
        ensures
            l.spec_current() == Seq::<u8>::empty(),
            l.spec_keepalive_interval_ms() == keepalive_interval_ms,
            l.spec_last_keepalive_ms() == now_ms,
    {
        StreamingLoop { current: Vec::new(), keepalive_interval_ms, last_keepalive_ms: now_ms }
    }

    /// The JPEG currently shown.
    pub fn current(&self) -> (c: &Vec<u8>)
        ensures
            c@ == self.spec_current(),
    {
        &self.current
    }

    /// Take the shared frame into account (`None` when it could not be
    /// read): a new non-empty JPEG replaces the current one.
    pub fn take_frame(&mut self, shared: Option<&DisplayFrame>)
        ensures
            final(self).spec_current() == match shared {
                Some(f) => next_jpeg(*f, old(self).spec_current()),
                None => old(self).spec_current(),
            },
            final(self).spec_keepalive_interval_ms() == old(self).spec_keepalive_interval_ms(),
            final(self).spec_last_keepalive_ms() == old(self).spec_last_keepalive_ms(),
    {
        if let Some(DisplayFrame::StreamingJpeg(bytes)) = shared {
            if bytes.len() > 0 && !bytes_equal(bytes, &self.current) {
                self.current = copy_bytes(bytes);
            }
        }
    }

    /// The keepalive interval has passed since the last keepalive (or
    /// reconnect) at `now_ms`.
    pub fn keepalive_due(&self, now_ms: u64) -> (due: bool)
        ensures
            due == (now_ms >= self.spec_last_keepalive_ms() && now_ms
                - self.spec_last_keepalive_ms() >= self.spec_keepalive_interval_ms()),
    {
        now_ms >= self.last_keepalive_ms && now_ms - self.last_keepalive_ms
            >= self.keepalive_interval_ms
    }

    /// What to do after the frame step of a tick: `frame_done` tells
    /// whether the frame step is behind (sent or nothing to send). A frame
    /// is sent first when there is one; then a keepalive when it is due;
    /// then the loop sleeps.
    pub fn next_action(&self, frame_done: bool, now_ms: u64) -> (a: StreamingAction)
        ensures
            a == (if !frame_done && self.spec_current().len() > 0 {
                StreamingAction::SendFrame
            } else if now_ms >= self.spec_last_keepalive_ms() && now_ms
                - self.spec_last_keepalive_ms() >= self.spec_keepalive_interval_ms() {
                StreamingAction::SendKeepalive
            } else {
                StreamingAction::Sleep
            }),
    {
        if !frame_done && self.current.len() > 0 {
            StreamingAction::SendFrame
        } else if self.keepalive_due(now_ms) {
            StreamingAction::SendKeepalive
        } else {
            StreamingAction::Sleep
        }
    }

    /// A keepalive was sent, or the device reconnected, at `now_ms`: the
    /// keepalive clock starts again.
    pub fn restart_keepalive_clock(&mut self, now_ms: u64)
        ensures
            final(self).spec_last_keepalive_ms() == now_ms,
            final(self).spec_current() == old(self).spec_current(),
            final(self).spec_keepalive_interval_ms() == old(self).spec_keepalive_interval_ms(),
    {
        self.last_keepalive_ms = now_ms;
    }
}

/// What a reconnect attempt does next.
#[derive(Debug, Clone, Copy, PartialEq, Eq, Structural)]
pub enum ReconnectStep {
    /// Give up: the loop was asked to stop.
    GiveUp,
    /// Wait the reconnect delay, then try to connect.
    WaitAndRetry,
    /// Connected again: streaming goes on.
    Resume,
}

/// The next step of a reconnect, from whether a stop was requested and the
/// outcome of the last connect attempt (`None` before the first one). A
/// stop is checked before every wait.
pub fn reconnect_step(stop_requested: bool, last_connect_ok: Option<bool>) -> (s: ReconnectStep)
    ensures
        s == (if last_connect_ok == Some(true) {
            ReconnectStep::Resume
        } else if stop_requested {
            ReconnectStep::GiveUp
        } else {
            ReconnectStep::WaitAndRetry
        }),
{
    match last_connect_ok {
        Some(true) => ReconnectStep::Resume,
        _ => if stop_requested {
            ReconnectStep::GiveUp
        } else {
            ReconnectStep::WaitAndRetry
        },
    }
}

/// The state of the file-transfer loop of a liquidctl device.
pub struct FileTransferLoop {
    last_sent: Vec<u8>,
}

impl FileTransferLoop {
    pub closed spec fn spec_last_sent(&self) -> Seq<u8> {
        self.last_sent@
    }

    /// A loop that has sent nothing yet.
    pub fn new() -> (l: Self)
        ensures
            l.spec_last_sent() == Seq::<u8>::empty(),
    {
        FileTransferLoop { last_sent: Vec::new() }
    }

    /// The PNG to write and send for the shared frame (`None` when it
    /// could not be read): only new, non-empty content.
    pub fn pending(&self, shared: Option<&DisplayFrame>) -> (p: Option<Vec<u8>>)
        ensures
            match shared {
                Some(f) => match pending_png(*f, self.spec_last_sent()) {
                    Some(b) => p matches Some(v) && v@ == b,
                    None => p is None,
                },
                None => p is None,
            },
    {
        match shared {
            Some(DisplayFrame::FileTransferPng(bytes)) => {
                if bytes.len() > 0 && !bytes_equal(bytes, &self.last_sent) {
                    Some(copy_bytes(bytes))
                } else {
                    None
                }
            },
            _ => None,
        }
    }

    /// The PNG was written to the transfer file (whatever the transfer
    /// itself gave): it is not sent again until the content changes.
    pub fn written(&mut self, png: Vec<u8>)
        ensures
            final(self).spec_last_sent() == png@,
    {
        self.last_sent = png;
    }
}

/// A failure of the display loop's I/O.
#[derive(Debug, Clone, Copy, PartialEq, Eq, Structural)]
pub enum LoopFailure {
    /// The native device could not be connected at the start.
    Connect,
    /// A frame could not be sent to the native device.
    FrameTransfer,
    /// A keepalive could not be sent to the native device.
    Keepalive,
    /// The PNG could not be written to the transfer file.
    WriteFrame,
    /// The liquidctl transfer failed.
    LiquidctlTransfer,
}

/// The text a failure's message starts with, before the error's own.
pub open spec fn failure_prefix(failure: LoopFailure) -> Seq<char> {
    match failure {
        LoopFailure::Connect => "connect failed: "@,
        LoopFailure::FrameTransfer => "frame transfer failed: "@,
        LoopFailure::Keepalive => "keepalive failed: "@,
        LoopFailure::WriteFrame => "failed to write liquidctl frame: "@,
        LoopFailure::LiquidctlTransfer => "liquidctl transfer failed: "@,
    }
}

/// `e` reports `failure` with the error text `error`: a failed connect
/// ends the loop; a failed native transfer leads to a reconnect; a failed
/// file transfer is reported and the loop goes on.
pub open spec fn reports_failure(e: DisplayLoopEvent, failure: LoopFailure, error: Seq<char>) -> bool {
    let text = failure_prefix(failure) + error;
    match failure {
        LoopFailure::Connect => e matches DisplayLoopEvent::Failed(m) && m@ == text,
        LoopFailure::FrameTransfer | LoopFailure::Keepalive => e matches DisplayLoopEvent::Reconnecting(
            m,
        ) && m@ == text,
        LoopFailure::WriteFrame | LoopFailure::LiquidctlTransfer => e matches DisplayLoopEvent::TransferFailed(
            m,
        ) && m@ == text,
    }
}

/// The event that reports a failure of the loop's I/O, with the error's
/// text.
pub fn failure_event(failure: LoopFailure, error: &str) -> (e: DisplayLoopEvent)
    ensures
        reports_failure(e, failure, error@),
{
    match failure {
        LoopFailure::Connect => DisplayLoopEvent::Failed(concat2("connect failed: ", error)),
        LoopFailure::FrameTransfer => DisplayLoopEvent::Reconnecting(
            concat2("frame transfer failed: ", error),
        ),
        LoopFailure::Keepalive => DisplayLoopEvent::Reconnecting(concat2("keepalive failed: ", error)),
        LoopFailure::WriteFrame => DisplayLoopEvent::TransferFailed(
            concat2("failed to write liquidctl frame: ", error),
        ),
        LoopFailure::LiquidctlTransfer => DisplayLoopEvent::TransferFailed(
            concat2("liquidctl transfer failed: ", error),
        ),
    }
}

/// Once written, a PNG is not pending again until the shared frame holds
/// other content.
pub proof fn lemma_written_png_is_not_resent(shared: DisplayFrame, last_sent: Seq<u8>)
    requires
        pending_png(shared, last_sent) is Some,
    ensures
        pending_png(shared, pending_png(shared, last_sent)->0) is None,
{
}

/// Reading the same shared JPEG twice changes the current one at most
/// once, and an empty JPEG never replaces what is shown.
pub proof fn lemma_next_jpeg_settles(shared: DisplayFrame, current: Seq<u8>)
    ensures
        next_jpeg(shared, next_jpeg(shared, current)) == next_jpeg(shared, current),
        shared matches DisplayFrame::StreamingJpeg(b) && b@.len() == 0 ==> next_jpeg(
            shared,
            current,
        ) == current,
{
}

} // verus!
