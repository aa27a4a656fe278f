//! Verified core of the MakerPnP control software.
use vstd::prelude::*;

pub mod camera;
pub mod camera_server;
pub mod firmware;
pub mod fpga;
pub mod fpga_pac;
pub mod frame_assembly;
pub mod morse;
pub mod motion;
pub mod stepper;
mod text;
pub mod watch;

verus! {

} // verus!
