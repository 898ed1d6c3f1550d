//! Device metadata and the values that flow between the display drivers and
//! their users.
use vstd::prelude::*;

verus! {

/// Pixel dimensions of an LCD.
#[derive(Debug, Clone, Copy, PartialEq, Eq, Structural)]
pub struct Resolution {
    pub width: u32,
    pub height: u32,
}

impl Resolution {
    pub fn new(width: u32, height: u32) -> (r: Self)
        ensures
            r.width == width,
            r.height == height,
    {
        Resolution { width, height }
    }
}

/// Rotation applied to frames before they are sent to the LCD.
#[derive(Debug, Clone, Copy, PartialEq, Eq, Structural)]
pub enum Rotation {
    Deg0,
    Deg90,
    Deg180,
    Deg270,
}

impl Default for Rotation {
    fn default() -> (r: Self)
        ensures
            r == Rotation::Deg0,
    {
        Rotation::Deg0
    }
}

/// Device metadata: name, resolution, rotation and timing.
///
/// The timing is kept in whole units: the streaming rate in frames per
/// second and the keepalive interval in seconds.
#[derive(Debug, Clone)]
pub struct DeviceInfo {
    pub name: String,
    pub resolution: Resolution,
    pub rotation: Rotation,
    pub target_fps: u32,
    pub keepalive_interval_secs: u64,
}

/// Errors of device access and frame preparation.
#[derive(Debug, Clone, PartialEq, Eq)]
pub enum Error {
    DeviceNotFound { vendor_id: u16, product_id: u16 },
    NotConnected,
    Connection(String),
    Transfer(String),
    Image(String),
    Other(String),
}

/// What display update strategy a device supports.
#[derive(Debug, Clone, Copy, PartialEq, Eq, Structural)]
pub enum DisplayCapability {
    /// Native USB streaming: supports high-FPS frame pushing.
    Streaming,
    /// File-based update via liquidctl: updates are expensive (~1/sec).
    FileTransfer,
}

/// Frame bytes prepared for a specific display backend.
#[derive(Debug, Clone, PartialEq, Eq)]
pub enum DisplayFrame {
    StreamingJpeg(Vec<u8>),
    FileTransferPng(Vec<u8>),
}

/// Lifecycle events reported by a running display loop.
#[derive(Debug, Clone, PartialEq, Eq)]
pub enum DisplayLoopEvent {
    Started,
    Reconnecting(String),
    TransferFailed(String),
    Failed(String),
    Stopped,
}

} // verus!
