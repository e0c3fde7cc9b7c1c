//! Incident reports of a project.

use crate::id::RecordId;
use crate::models::project::ProjectStatusKind;
use vstd::prelude::*;

verus! {

/// The kind of an incident.
#[derive(Clone, Copy, Debug, PartialEq, Eq, Structural)]
pub enum ProjectIncidentReportKind {
    FirstAid,
    LostTimeInjury,
    Fatal,
    PropertyDamage,
    Environmental,
    NearMiss,
}

/// A stored incident report; `date` is in milliseconds since the epoch.
#[derive(Debug)]
pub struct ProjectIncidentReport {
    pub _id: Option<RecordId>,
    pub project_id: RecordId,
    pub user_id: Vec<RecordId>,
    pub date: i64,
    pub kind: ProjectIncidentReportKind,
}

/// The body of a request that reports an incident.
#[derive(Debug)]
pub struct ProjectIncidentReportRequest {
    pub project_id: RecordId,
    pub user_id: Vec<RecordId>,
    pub kind: ProjectIncidentReportKind,
}

/// Whether the incident stopped the project.
#[derive(Clone, Copy, Debug)]
pub struct ProjectIncidentReportRequestQuery {
    pub breakdown: bool,
}

impl ProjectIncidentReportRequestQuery {
    /// The status the project takes after the report: `Breakdown` when the
    /// incident stopped it, else none.
    pub fn project_status_after(&self) -> (res: Option<ProjectStatusKind>)
        ensures
            self.breakdown ==> res == Some(ProjectStatusKind::Breakdown),
            !self.breakdown ==> res is None,
    {
        if self.breakdown {
            Some(ProjectStatusKind::Breakdown)
        } else {
            None
        }
    }
}

} // verus!
