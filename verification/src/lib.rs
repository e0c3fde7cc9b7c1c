//! Verified core of a project-management service: permissions, project and
//! task bookkeeping, report validation and request checks.

pub mod error;
pub mod id;
pub mod models;
pub mod routes;
pub mod settings;
