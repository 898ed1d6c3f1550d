//! CoolCooler: shows images, animations and live widgets on the LCD of AIO
//! coolers — the ID-Cooling FX360 over its own USB protocol, NZXT and MSI
//! coolers through `liquidctl`.
//!
//! The crate holds the verified logic: the wire protocol, the device
//! registry and driver choice, frame preparation, the display loops' and the
//! display worker's decisions, the canvas's widget layers, widget state,
//! presets and their recovery, and sensor selection. Input and output (USB,
//! files, processes, the clock, the GUI toolkit) stay with the host, which
//! hands the results to these functions.

pub mod protocol;
pub mod text;
pub mod types;
pub mod liquidctl;
pub mod driver;
pub mod names;
pub mod recovery;
pub mod color;
pub mod composition;
pub mod widgets;
pub mod widget_state;
pub mod layers;
pub mod display;
pub mod display_loop;
pub mod presets;
pub mod save;
pub mod frame;
pub mod source;
pub mod sensors;
pub mod render;
pub mod tray;
