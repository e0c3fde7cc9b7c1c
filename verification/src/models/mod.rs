//! The stored records of the service and the rules that govern them.

pub mod company;
pub mod customer;
pub mod project;
pub mod project_incident_report;
pub mod project_progress_report;
pub mod project_role;
pub mod project_safety_report;
pub mod project_task;
pub mod role;
pub mod user;
