//! Plain data carried over the control-plane (D-Bus) surface.
//!
//! The connection handling and the marshalling live outside the library;
//! these are the message payloads themselves, as plain values.

use vstd::prelude::*;

verus! {

/// Errors a control-plane client reports.
#[derive(Clone, Debug)]
pub enum DbusClientError {
    UnknownError { description: String },
    AuthError { description: String },
    MethodFailed { description: String },
}

impl DbusClientError {
    /// The human-readable description carried by the error.
    pub fn description(&self) -> (r: &String)
        ensures
            r@ == match self {
                DbusClientError::UnknownError { description } => description@,
                DbusClientError::AuthError { description } => description@,
                DbusClientError::MethodFailed { description } => description@,
            },
    {
        match self {
            DbusClientError::UnknownError { description } => description,
            DbusClientError::AuthError { description } => description,
            DbusClientError::MethodFailed { description } => description,
        }
    }
}

/// Signal payload: the global brightness changed.
#[derive(Clone, Copy, Debug, PartialEq, Eq, Structural)]
pub struct OrgEruptionConfigBrightnessChanged {
    pub brightness: i64,
}

/// Signal payload: a device was plugged or unplugged.
#[derive(Clone, Copy, Debug)]
pub struct OrgEruptionDeviceDeviceHotplug {
    pub device_info: (u16, u16, bool),
}

/// Signal payload: a device's status string changed.
#[derive(Clone, Debug)]
pub struct OrgEruptionDeviceDeviceStatusChanged {
    pub status: String,
}

/// Signal payload: the process monitor's rule set changed.
#[derive(Clone, Debug)]
pub struct OrgEruptionProcessMonitorRulesRulesChanged {
    pub rules: Vec<(String, String, String, String)>,
}

} // verus!
