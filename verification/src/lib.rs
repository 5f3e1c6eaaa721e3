//! The verified core of a USB host for game controllers.
//!
//! The crate holds everything that such a host decides or computes: reading the
//! configuration descriptor of a device, recognising the device, decoding the input
//! reports of the two supported protocols, building output packets, turning stick
//! positions into colours, and the state machines that drive a connected controller
//! and the root port. Transfers, tasks and hardware are left to the program around it.

pub mod bytes;
pub mod color;
pub mod deadzone;
pub mod descriptor;
pub mod ds5;
pub mod errors;
pub mod gamepad;
pub mod led;
pub mod session;
pub mod text;
pub mod usb_host;
pub mod xinput;

