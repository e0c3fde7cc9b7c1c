//! Safety reports of a project.

use crate::id::RecordId;
use vstd::prelude::*;

verus! {

/// The kind of a safety incident.
#[derive(Clone, Copy, Debug, PartialEq, Eq, Structural)]
pub enum ProjectSafetyReportIncidentKind {
    FirstAid,
    LostTimeInjury,
    Fatal,
    PropertyDamage,
    Environmental,
    NearMiss,
}

/// Whether a safety report is still open.
#[derive(Clone, Copy, Debug, PartialEq, Eq, Structural)]
pub enum ProjectSafetyReportStatus {
    OnGoing,
    Cleared,
}

/// A stored safety report; times are in milliseconds since the epoch.
#[derive(Debug)]
pub struct ProjectSafetyReport {
    pub _id: Option<RecordId>,
    pub project_id: RecordId,
    pub date: i64,
    pub status: ProjectSafetyReportStatus,
    pub incident: Vec<ProjectSafetyReportIncident>,
    pub period: Option<ProjectSafetyReportPeriod>,
}

/// An incident of a safety report and the people involved.
#[derive(Debug)]
pub struct ProjectSafetyReportIncident {
    pub kind: ProjectSafetyReportIncidentKind,
    pub involved: Vec<RecordId>,
}

/// When a safety report's situation lasted.
#[derive(Clone, Copy, Debug)]
pub struct ProjectSafetyReportPeriod {
    pub start: i64,
    pub end: Option<i64>,
}

} // verus!
