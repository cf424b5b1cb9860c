//! The parts of the health snapshot that carry states rather than rates.
use crate::text::owned;
use vstd::prelude::*;

verus! {

#[derive(Debug, Clone, Copy, PartialEq, Eq, Structural)]
pub enum CapabilityState {
    Available,
    MissingTool,
    PermissionDenied,
    Unavailable,
    Error,
}

/// Whether a probe could run, and why not.
#[derive(Debug, PartialEq, Eq)]
pub struct Capability {
    pub state: CapabilityState,
    pub detail: Option<String>,
}

/// `c` has this state and this detail text.
pub open spec fn capability_is(c: Capability, state: CapabilityState, detail: Seq<char>) -> bool {
    &&& c.state == state
    &&& c.detail matches Some(d) && d@ == detail
}

impl Clone for Capability {
    fn clone(&self) -> (r: Self)
        ensures
            r == *self,
    {
        Capability {
            state: self.state,
            detail: match &self.detail {
                Some(d) => Some(d.clone()),
                None => None,
            },
        }
    }
}

impl Capability {
    pub fn available() -> (r: Self)
        ensures
            r.state == CapabilityState::Available,
            r.detail is None,
    {
        Self { state: CapabilityState::Available, detail: None }
    }

    pub fn missing_tool(tool: &str) -> (r: Self)
        ensures
            capability_is(r, CapabilityState::MissingTool, tool@),
    {
        Self { state: CapabilityState::MissingTool, detail: Some(owned(tool)) }
    }

    pub fn permission_denied(detail: &str) -> (r: Self)
        ensures
            capability_is(r, CapabilityState::PermissionDenied, detail@),
    {
        Self { state: CapabilityState::PermissionDenied, detail: Some(owned(detail)) }
    }

    pub fn unavailable(detail: &str) -> (r: Self)
        ensures
            capability_is(r, CapabilityState::Unavailable, detail@),
    {
        Self { state: CapabilityState::Unavailable, detail: Some(owned(detail)) }
    }

    pub fn error(detail: &str) -> (r: Self)
        ensures
            capability_is(r, CapabilityState::Error, detail@),
    {
        Self { state: CapabilityState::Error, detail: Some(owned(detail)) }
    }
}

#[derive(Debug, Clone, PartialEq, Eq)]
pub struct ToolStatus {
    pub smartctl: Capability,
    pub nvme: Capability,
    pub systemctl: Capability,
    pub journalctl: Capability,
    pub thermal_sysfs: Capability,
}

impl Default for ToolStatus {
    /// Every tool starts out as not probed.
    fn default() -> (r: Self)
        ensures
            capability_is(r.smartctl, CapabilityState::Unavailable, "not-probed"@),
            capability_is(r.nvme, CapabilityState::Unavailable, "not-probed"@),
            capability_is(r.systemctl, CapabilityState::Unavailable, "not-probed"@),
            capability_is(r.journalctl, CapabilityState::Unavailable, "not-probed"@),
            capability_is(r.thermal_sysfs, CapabilityState::Unavailable, "not-probed"@),
    {
        Self {
            smartctl: Capability::unavailable("not-probed"),
            nvme: Capability::unavailable("not-probed"),
            systemctl: Capability::unavailable("not-probed"),
            journalctl: Capability::unavailable("not-probed"),
            thermal_sysfs: Capability::unavailable("not-probed"),
        }
    }
}

#[derive(Debug, Clone, Copy, PartialEq, Eq, Structural)]
pub enum DiskHealthState {
    Healthy,
    Degraded,
    Unknown,
}

#[derive(Debug, Clone, PartialEq, Eq)]
pub struct FailedUnit {
    pub unit: String,
    pub active_state: String,
    pub sub_state: String,
    pub description: String,
}

#[derive(Debug, Clone, PartialEq, Eq)]
pub struct SystemdStatus {
    pub failed_units: Vec<FailedUnit>,
    pub capability: Capability,
}

#[derive(Debug, Clone, PartialEq, Eq)]
pub struct KernelError {
    pub timestamp: Option<String>,
    pub priority: Option<u8>,
    pub identifier: Option<String>,
    pub message: String,
}

#[derive(Debug, Clone, PartialEq, Eq)]
pub struct KernelStatus {
    pub recent_errors: Vec<KernelError>,
    pub truncated: bool,
    pub capability: Capability,
}

#[derive(Debug, Clone, Copy, PartialEq, Eq, Structural)]
pub enum AlertLevel {
    Info,
    Warning,
    Critical,
}

} // verus!
