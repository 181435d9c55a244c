//! Joystick, gamepad and controller state: axis transforms, per-hardware
//! quirks, raw event decoding, hot-plug notices and a fixed-capacity slot
//! registry. Reading device handles and waiting on them is left to the
//! caller, which hands this library the bytes it read.
use vstd::prelude::*;

pub mod transform;
pub mod quirk;
pub mod event;
pub mod devices;
pub mod registry;
pub mod hotplug;

pub use devices::{joystick_poll_event, Device, CONTROLLER_MAX};
pub use event::{Event, EVENT_SIZE};
pub use hotplug::{is_joystick_name, parse_notice, Change, Notice};
pub use quirk::{hardware_id_of, quirk_for, Btn, Quirk};
pub use registry::{Next, NoticeStep, Port, Read, SlotError};
pub use transform::{deadzone, transform, transform2};

verus! {

} // verus!
