//! Core of a user-space RGB-device effect engine.
//!
//! Scripts run in independent virtual machines; each VM owns a layer of
//! pixels.  A scheduler drives the system at a fixed tick: it drains the
//! control plane, fans keyboard input out to every VM, broadcasts the tick,
//! and then composes all layers onto a shared canvas in profile order through
//! a blend barrier, before the composed frame is pushed to the device.
//!
//! This crate holds the verified logic of that pipeline: the blend operator
//! and canvas composition, the VM command state machine, the scheduler's
//! per-tick decisions, the input-event dispatcher, and the small helpers
//! around profiles, script paths and device identification.  All I/O (HID
//! devices, D-Bus, threads, clocks) lives outside, in the surrounding
//! application, which feeds plain values in and carries effects out.

use vstd::prelude::*;

pub mod pixel;
pub mod canvas;
pub mod vm;
pub mod scheduler;
pub mod events;
pub mod util;
pub mod device;
pub mod hwdevice;
pub mod dbus;
pub mod text;
pub mod keymap;
pub mod startup;

verus! {

/// Number of LED cells on the canvas; fixed at device open.
pub const NUM_KEYS: usize = 144;

/// Nominal period of the main loop, in milliseconds.
pub const MAIN_LOOP_DELAY_MILLIS: u64 = 16;

/// How long the scheduler waits for one VM's blend before dropping the frame.
pub const FRAME_BLEND_TIMEOUT_MILLIS: u64 = 50;

/// Iterations above target by more than this many milliseconds count as jitter.
pub const JITTER_WARN_MILLIS: u64 = 15;

} // verus!
