//! Start-up decisions and the main loop's timing arithmetic.
//!
//! The surrounding application reads the command line, the configuration
//! and the profile file; the choices made from those plain values stand
//! here: which scripts run, where the profile file lives, what exit code a
//! failure carries, and how long the loop sleeps to hold its cadence.

use vstd::prelude::*;

use crate::util::{join_path, spec_join_path, with_extension, spec_with_extension};
use crate::{JITTER_WARN_MILLIS, MAIN_LOOP_DELAY_MILLIS};

verus! {

/// A failure that ends the process at start-up, with its exit code: the
/// HID API being unavailable, no usable device, an inaccessible script or
/// manifest, or a device that would not open.
#[derive(Clone, Copy, Debug, PartialEq, Eq, Structural)]
pub enum StartupError {
    HidApiUnavailable,
    NoDevicesFound,
    ScriptInaccessible,
    DeviceOpenFailed,
}

impl StartupError {
    /// The process exit code for this failure.
    pub fn exit_code(&self) -> (code: i32)
        ensures
            code == match self {
                StartupError::HidApiUnavailable => 1int,
                StartupError::NoDevicesFound => 2int,
                StartupError::ScriptInaccessible => 3int,
                StartupError::DeviceOpenFailed => 4int,
            },
    {
        match self {
            StartupError::HidApiUnavailable => 1,
            StartupError::NoDevicesFound => 2,
            StartupError::ScriptInaccessible => 3,
            StartupError::DeviceOpenFailed => 4,
        }
    }
}

/// Whether a script may start: both the script file and its manifest must
/// have been readable.  The inaccessible case carries exit code 3.
pub fn check_script_accessible(script_ok: bool, manifest_ok: bool) -> (r: Result<
    (),
    StartupError,
>)
    ensures
        r is Ok <==> (script_ok && manifest_ok),
        r is Err ==> r->Err_0 == StartupError::ScriptInaccessible,
{
    if script_ok && manifest_ok {
        Ok(())
    } else {
        Err(StartupError::ScriptInaccessible)
    }
}

/// The scripts that run: the active profile's list, or the scripts named on
/// the command line when the profile has none.
pub fn resolve_script_files(profile_scripts: &Vec<String>, cli_scripts: &Vec<String>) -> (files:
    Vec<String>)
    ensures
        profile_scripts@.len() > 0 ==> {
            &&& files@.len() == profile_scripts@.len()
            &&& forall|i: int|
                0 <= i < files@.len() ==> (#[trigger] files@[i]@) == profile_scripts@[i]@
        },
        profile_scripts@.len() == 0 ==> {
            &&& files@.len() == cli_scripts@.len()
            &&& forall|i: int| 0 <= i < files@.len() ==> (#[trigger] files@[i]@) == cli_scripts@[i]@
        },
{
    let chosen = if profile_scripts.len() > 0 {
        profile_scripts
    } else {
        cli_scripts
    };
    let mut files: Vec<String> = Vec::new();
    let mut i: usize = 0;
    while i < chosen.len()
        invariant
            i <= chosen@.len(),
            files@.len() == i,
            forall|j: int| 0 <= j < i ==> (#[trigger] files@[j]@) == chosen@[j]@,
        decreases chosen@.len() - i,
    {
        files.push(chosen[i].clone());
        i = i + 1;
    }
    files
}

/// Each script file resolved against the script directory, in order.
pub fn resolve_script_paths(script_dir: &str, files: &Vec<String>) -> (paths: Vec<String>)
    ensures
        paths@.len() == files@.len(),
        forall|i: int|
            0 <= i < paths@.len() ==> (#[trigger] paths@[i]@) == spec_join_path(
                script_dir@,
                files@[i]@,
            ),
{
    let mut paths: Vec<String> = Vec::new();
    let mut i: usize = 0;
    while i < files.len()
        invariant
            i <= files@.len(),
            paths@.len() == i,
            forall|j: int|
                0 <= j < i ==> (#[trigger] paths@[j]@) == spec_join_path(script_dir@, files@[j]@),
        decreases files@.len() - i,
    {
        paths.push(join_path(script_dir, files[i].as_str()));
        i = i + 1;
    }
    paths
}

/// Where the profile file for `profile_name` lives: the name with the
/// `profile` extension, under the profile directory.
pub fn profile_file_path(profile_dir: &str, profile_name: &str) -> (r: String)
    ensures
        r@ == spec_join_path(
            profile_dir@,
            spec_with_extension(profile_name@, "profile"@),
        ),
{
    let file = with_extension(profile_name, "profile");
    join_path(profile_dir, file.as_str())
}

/// How long to sleep after a loop iteration that took `elapsed_ms`: the
/// remainder of the period, never negative, and never more than one period.
pub fn sleep_duration(elapsed_ms: u64) -> (sleep_ms: u64)
    ensures
        sleep_ms == (if MAIN_LOOP_DELAY_MILLIS - elapsed_ms >= 0 {
            MAIN_LOOP_DELAY_MILLIS - elapsed_ms
        } else {
            0int
        }),
        sleep_ms <= MAIN_LOOP_DELAY_MILLIS,
{
    let remaining = if elapsed_ms <= MAIN_LOOP_DELAY_MILLIS {
        MAIN_LOOP_DELAY_MILLIS - elapsed_ms
    } else {
        0
    };
    if remaining < MAIN_LOOP_DELAY_MILLIS {
        remaining
    } else {
        MAIN_LOOP_DELAY_MILLIS
    }
}

/// Whether an iteration overran its target by more than the jitter budget.
pub fn jitter_exceeded(elapsed_after_sleep_ms: u64) -> (r: bool)
    ensures
        r == (elapsed_after_sleep_ms > MAIN_LOOP_DELAY_MILLIS + JITTER_WARN_MILLIS),
{
    elapsed_after_sleep_ms > MAIN_LOOP_DELAY_MILLIS + JITTER_WARN_MILLIS
}

/// Whether the frames-per-second counter is due to be emitted: a full
/// second has passed since it was last reset.
pub fn fps_due(fps_timer_elapsed_ms: u64) -> (r: bool)
    ensures
        r == (fps_timer_elapsed_ms >= 1000),
{
    fps_timer_elapsed_ms >= 1000
}

} // verus!
