//! The display drivers: the native ID-Cooling FX360 (USB HID streaming) and
//! the liquidctl-backed devices (file transfer), and the choice between them
//! among the USB devices present.
//!
//! The drivers are generic over the handles that only the host side can
//! open: `D`, the open HID device of the FX360, and `P`, the path of the
//! temporary image file of a liquidctl device.
use vstd::prelude::*;

use crate::liquidctl::{
    build_liquidctl_args, first_registry_match, is_registry_entry, liquidctl_args,
    match_liquidctl_device, registry_matches, LiquidctlDeviceDef,
};
use crate::types::{DeviceInfo, DisplayCapability, Error, Resolution, Rotation};

verus! {

/// USB vendor id of the ID-Cooling FX360.
pub const FX360_VENDOR_ID: u16 = 0x2000;

/// USB product id of the ID-Cooling FX360.
pub const FX360_PRODUCT_ID: u16 = 0x3000;

/// Whether a USB device is an ID-Cooling FX360.
pub open spec fn is_fx360(vendor_id: u16, product_id: u16) -> bool {
    vendor_id == FX360_VENDOR_ID && product_id == FX360_PRODUCT_ID
}

/// The metadata of the FX360: 240x240, mounted upside down, streamed at 20
/// frames per second with a keepalive every 8 seconds.
pub open spec fn is_fx360_info(info: DeviceInfo) -> bool {
    &&& info.name@ == "ID-Cooling FX360"@
    &&& info.resolution == (Resolution { width: 240, height: 240 })
    &&& info.rotation == Rotation::Deg180
    &&& info.target_fps == 20
    &&& info.keepalive_interval_secs == 8
}

/// The metadata a liquidctl device definition gives: its name, resolution and
/// rotation, a nominal rate of one frame per second and an hourly keepalive
/// (file-transfer devices neither stream nor need keepalives).
pub open spec fn is_liquidctl_info(info: DeviceInfo, def: LiquidctlDeviceDef) -> bool {
    &&& info.name@ == def.name@
    &&& info.resolution == def.resolution
    &&& info.rotation == def.rotation
    &&& info.target_fps == 1
    &&& info.keepalive_interval_secs == 3600
}

/// ID-Cooling FX360 LCD controller, holding the open HID device `D` while
/// connected.
pub struct Fx360<D> {
    info: DeviceInfo,
    device: Option<D>,
}

impl<D> Fx360<D> {
    pub closed spec fn spec_info(&self) -> DeviceInfo {
        self.info
    }

    pub closed spec fn spec_device(&self) -> Option<D> {
        self.device
    }

    /// A disconnected FX360.
    pub fn new() -> (fx: Self)
        ensures
            is_fx360_info(fx.spec_info()),
            fx.spec_device() is None,
    {
        let name = "ID-Cooling FX360".to_owned();
        Fx360 {
            info: DeviceInfo {
                name,
                resolution: Resolution::new(240, 240),
                rotation: Rotation::Deg180,
                target_fps: 20,
                keepalive_interval_secs: 8,
            },
            device: None,
        }
    }

    /// Whether a USB device is an ID-Cooling FX360.
    pub fn matches_device(vendor_id: u16, product_id: u16) -> (b: bool)
        ensures
            b == is_fx360(vendor_id, product_id),
    {
        vendor_id == FX360_VENDOR_ID && product_id == FX360_PRODUCT_ID
    }

    /// Device metadata.
    pub fn info(&self) -> (info: &DeviceInfo)
        ensures
            *info == self.spec_info(),
    {
        &self.info
    }

    /// Record the device opened by the host as the connection.
    pub fn attach(&mut self, device: D)
        ensures
            final(self).spec_device() == Some(device),
            final(self).spec_info() == old(self).spec_info(),
    {
        self.device = Some(device);
    }

    /// Close the connection: the device handle is given back (dropping it
    /// closes the device).
    pub fn disconnect(&mut self) -> (device: Option<D>)
        ensures
            device == old(self).spec_device(),
            final(self).spec_device() is None,
            final(self).spec_info() == old(self).spec_info(),
    {
        self.device.take()
    }

    /// Whether the device is currently connected.
    pub fn is_connected(&self) -> (b: bool)
        ensures
            b == self.spec_device() is Some,
    {
        self.device.is_some()
    }

    /// The device to write to, or `NotConnected`.
    pub fn connected_device(&self) -> (r: Result<&D, Error>)
        ensures
            match r {
                Ok(d) => self.spec_device() == Some(*d),
                Err(e) => self.spec_device() is None && e == Error::NotConnected,
            },
    {
        match &self.device {
            Some(d) => Ok(d),
            None => Err(Error::NotConnected),
        }
    }
}

/// A display driver that delegates to the `liquidctl` CLI tool, writing each
/// frame to the temporary file `P` first.
pub struct LiquidctlDriver<P> {
    def: LiquidctlDeviceDef,
    info: DeviceInfo,
    temp_file: P,
}

impl<P> LiquidctlDriver<P> {
    pub closed spec fn spec_def(&self) -> LiquidctlDeviceDef {
        self.def
    }

    pub closed spec fn spec_info(&self) -> DeviceInfo {
        self.info
    }

    pub closed spec fn spec_temp_file(&self) -> P {
        self.temp_file
    }

    /// A driver for the device `def`, staging frames in `temp_file`.
    pub fn new(def: LiquidctlDeviceDef, temp_file: P) -> (d: Self)
        ensures
            d.spec_def() == def,
            is_liquidctl_info(d.spec_info(), def),
            d.spec_temp_file() == temp_file,
    {
        let name = def.name.to_owned();
        let info = DeviceInfo {
            name,
            resolution: def.resolution,
            rotation: def.rotation,
            target_fps: 1,
            keepalive_interval_secs: 3600,
        };
        LiquidctlDriver { def, info, temp_file }
    }

    /// Device metadata.
    pub fn info(&self) -> (info: &DeviceInfo)
        ensures
            *info == self.spec_info(),
    {
        &self.info
    }

    /// The temporary file that frames are written to before each transfer.
    pub fn temp_file_path(&self) -> (p: &P)
        ensures
            *p == self.spec_temp_file(),
    {
        &self.temp_file
    }

    /// The liquidctl arguments that show the image at `path`.
    pub fn image_args(&self, path: &str) -> (args: Vec<String>)
        ensures
            args@.len() == self.spec_def().set_screen_args@.len(),
            forall|i: int|
                0 <= i < args@.len() ==> #[trigger] args@[i]@ == liquidctl_args(
                    self.spec_def().set_screen_args@,
                    path@,
                )[i],
    {
        build_liquidctl_args(&self.def, path)
    }
}

/// Unified device driver: enum dispatch over the native (streaming) and
/// liquidctl (file-transfer) backends.
pub enum DisplayDriver<D, P> {
    Native(Fx360<D>),
    Liquidctl(LiquidctlDriver<P>),
}

/// The capability of a driver: native drivers stream, liquidctl ones transfer files.
pub open spec fn driver_capability<D, P>(driver: DisplayDriver<D, P>) -> DisplayCapability {
    match driver {
        DisplayDriver::Native(_) => DisplayCapability::Streaming,
        DisplayDriver::Liquidctl(_) => DisplayCapability::FileTransfer,
    }
}

/// The metadata of a driver.
pub open spec fn driver_info<D, P>(driver: DisplayDriver<D, P>) -> DeviceInfo {
    match driver {
        DisplayDriver::Native(d) => d.spec_info(),
        DisplayDriver::Liquidctl(d) => d.spec_info(),
    }
}

impl<D, P> DisplayDriver<D, P> {
    pub fn info(&self) -> (info: &DeviceInfo)
        ensures
            *info == driver_info(*self),
    {
        match self {
            DisplayDriver::Native(d) => d.info(),
            DisplayDriver::Liquidctl(d) => d.info(),
        }
    }

    pub fn capability(&self) -> (c: DisplayCapability)
        ensures
            c == driver_capability(*self),
    {
        match self {
            DisplayDriver::Native(_) => DisplayCapability::Streaming,
            DisplayDriver::Liquidctl(_) => DisplayCapability::FileTransfer,
        }
    }

    /// Close the connection of a native driver (liquidctl devices hold none);
    /// the closed device handle is given back.
    pub fn disconnect(&mut self) -> (device: Option<D>)
        ensures
            match *old(self) {
                DisplayDriver::Native(d) => {
                    &&& device == d.spec_device()
                    &&& (*final(self) matches DisplayDriver::Native(n) && n.spec_device() is None
                        && n.spec_info() == d.spec_info())
                },
                DisplayDriver::Liquidctl(_) => device is None && *final(self) == *old(self),
            },
    {
        match self {
            DisplayDriver::Native(d) => d.disconnect(),
            DisplayDriver::Liquidctl(_) => None,
        }
    }

    /// Whether the device is connected: liquidctl devices hold no persistent
    /// connection and always count as connected.
    pub fn is_connected(&self) -> (b: bool)
        ensures
            b == match *self {
                DisplayDriver::Native(d) => d.spec_device() is Some,
                DisplayDriver::Liquidctl(_) => true,
            },
    {
        match self {
            DisplayDriver::Native(d) => d.is_connected(),
            DisplayDriver::Liquidctl(_) => true,
        }
    }
}

/// The kind of supported device found among the USB devices present.
#[derive(Debug, Clone)]
pub enum DetectedDevice {
    /// An FX360, driven natively.
    Native,
    /// A device of the liquidctl registry.
    Liquidctl(LiquidctlDeviceDef),
}

/// Index of the first USB device (in enumeration order) that some liquidctl
/// registry entry is for.
pub open spec fn first_liquidctl_device(devices: Seq<(u16, u16)>) -> Option<int> {
    if exists|k: int| 0 <= k < devices.len() && first_registry_match(devices[k].0, devices[k].1) is Some {
        Some(
            choose|k: int|
                0 <= k < devices.len() && first_registry_match(devices[k].0, devices[k].1) is Some
                    && forall|j: int|
                    0 <= j < k ==> first_registry_match(devices[j].0, devices[j].1) is None,
        )
    } else {
        None
    }
}

/// Choose the device to drive among the USB devices present, given as
/// `(vendor_id, product_id)` in enumeration order.
///
/// Native drivers come first (they stream and keep the connection alive): any
/// FX360 present is chosen. Otherwise the first device that the liquidctl
/// registry knows is chosen, with its first registry entry.
pub fn select_device(devices: &Vec<(u16, u16)>) -> (found: Option<DetectedDevice>)
    ensures
        (exists|k: int| 0 <= k < devices@.len() && is_fx360(devices@[k].0, devices@[k].1))
            ==> found matches Some(DetectedDevice::Native),
        !(exists|k: int| 0 <= k < devices@.len() && is_fx360(devices@[k].0, devices@[k].1))
            ==> match found {
            None => first_liquidctl_device(devices@) is None,
            Some(DetectedDevice::Native) => false,
            Some(DetectedDevice::Liquidctl(d)) => exists|k: int, i: int|
                first_liquidctl_device(devices@) == Some(k) && first_registry_match(
                    devices@[k].0,
                    devices@[k].1,
                ) == Some(i) && is_registry_entry(d, i),
        },
{
    let mut k: usize = 0;
    while k < devices.len()
        invariant
            forall|j: int| 0 <= j < k ==> !is_fx360(devices@[j].0, devices@[j].1),
        decreases devices@.len() - k,
    {
        if Fx360::<()>::matches_device(devices[k].0, devices[k].1) {
            return Some(DetectedDevice::Native);
        }
        k = k + 1;
    }
    let mut k: usize = 0;
    while k < devices.len()
        invariant
            forall|j: int| 0 <= j < devices@.len() ==> !is_fx360(devices@[j].0, devices@[j].1),
            forall|j: int|
                0 <= j < k ==> first_registry_match(devices@[j].0, devices@[j].1) is None,
        decreases devices@.len() - k,
    {
        let (vid, pid) = devices[k];
        match match_liquidctl_device(vid, pid) {
            Some(def) => {
                proof {
                    lemma_first_match_of_found(vid, pid, def);
                    let f = first_liquidctl_device(devices@);
                    assert(0 <= k < devices@.len() && first_registry_match(
                        devices@[k as int].0,
                        devices@[k as int].1,
                    ) is Some);
                    let c = choose|c: int|
                        0 <= c < devices@.len() && first_registry_match(
                            devices@[c].0,
                            devices@[c].1,
                        ) is Some && forall|j: int|
                            0 <= j < c ==> first_registry_match(devices@[j].0, devices@[j].1)
                                is None;
                    assert(c == k);
                }
                return Some(DetectedDevice::Liquidctl(def));
            },
            None => {
                proof {
                    lemma_first_match_none(vid, pid);
                }
            },
        }
        k = k + 1;
    }
    None
}

proof fn lemma_first_match_of_found(vid: u16, pid: u16, d: LiquidctlDeviceDef)
    requires
        exists|i: int|
            #![trigger registry_matches(i, vid, pid)]
            registry_matches(i, vid, pid) && is_registry_entry(d, i) && forall|j: int|
                0 <= j < i ==> !registry_matches(j, vid, pid),
    ensures
        first_registry_match(vid, pid) matches Some(i) && is_registry_entry(d, i),
{
    let i = choose|i: int|
        #![trigger registry_matches(i, vid, pid)]
        registry_matches(i, vid, pid) && is_registry_entry(d, i) && forall|j: int|
            0 <= j < i ==> !registry_matches(j, vid, pid);
    assert(0 <= i < crate::liquidctl::registry_len() && registry_matches(i, vid, pid));
    let c = choose|c: int|
        0 <= c < crate::liquidctl::registry_len() && registry_matches(c, vid, pid) && forall|
            j: int,
        | 0 <= j < c ==> !registry_matches(j, vid, pid);
    assert(c == i) by {
        if c < i {
            assert(!registry_matches(c, vid, pid));
        }
        if i < c {
            assert(!registry_matches(i, vid, pid));
        }
    }
}

proof fn lemma_first_match_none(vid: u16, pid: u16)
    requires
        forall|i: int| 0 <= i < crate::liquidctl::registry_len() ==> !registry_matches(i, vid, pid),
    ensures
        first_registry_match(vid, pid) is None,
{
}

} // verus!
