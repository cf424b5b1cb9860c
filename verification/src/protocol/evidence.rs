//! Records that tie an acceptance assertion to the artifacts proving it.
use super::bounded::{BoundedString, BoundedVec};
use vstd::prelude::*;

verus! {

pub type EvidenceId = BoundedString<80>;

#[allow(non_camel_case_types)]
#[derive(Debug, Clone, Copy, PartialEq, Eq, Structural)]
pub enum EvidenceDomain {
    BUILD,
    LIVE,
    INSTALL,
    DISK,
    OFFLINE,
    AI,
    TOOLS,
    SHELL,
    HEALTH,
    ROUTER,
    PRIVACY,
    TRUST,
    SECUREBOOT,
}

#[derive(Debug, Clone, Copy, PartialEq, Eq, Structural)]
pub enum EvidenceStatus {
    Missing,
    Collected,
    Verified,
    Failed,
    Redacted,
}

#[derive(Debug, Clone, Copy, PartialEq, Eq, Structural)]
pub enum EvidencePointerKind {
    IsoChecksum,
    BuildLog,
    SerialLog,
    JournalLog,
    Screenshot,
    ArtifactManifest,
    TestReport,
}

#[derive(Debug, Clone, PartialEq, Eq)]
pub struct EvidencePointer {
    pub kind: EvidencePointerKind,
    pub path: String,
    pub sha256: Option<String>,
}

#[derive(Debug, Clone, PartialEq, Eq)]
pub struct EvidenceRecord {
    pub evidence_id: EvidenceId,
    pub domain: EvidenceDomain,
    pub required: bool,
    pub status: EvidenceStatus,
    pub assertion: String,
    pub pointers: BoundedVec<EvidencePointer, 32>,
    pub failure_reason: Option<String>,
}

} // verus!
