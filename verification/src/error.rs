//! The refusals that the service answers with, each with its wire code.

use vstd::prelude::*;

verus! {

/// Why a request was refused.
#[derive(Clone, Copy, Debug, PartialEq, Eq, Structural)]
pub enum ApiError {
    InvalidId,
    Unauthorized,
    RoleMustHaveValidPermission,
    UserMustHaveValidPassword,
    UserMustHaveValidEmail,
    UserMustHaveRoles,
    InvalidCombination,
    InvalidPeriod,
    InvalidStatus,
    ProjectStatusInvalid,
    ProjectStatusMustBePending,
    ProjectTaskDependency,
    ProjectTaskMustHaveAreaId,
    ProjectTaskNotFound,
    ProjectAreaNotFound,
    ProjectReportTimeInvalid,
    UpdateFailed,
    ImageInvalidMime,
    HashingFailed,
    ProjectReportDocumentationNotFound,
    ProjectReportDocumentationInvalidLength,
}

/// The code written in the body of a refusal.
pub open spec fn error_code(e: ApiError) -> Seq<char> {
    match e {
        ApiError::InvalidId => "INVALID_ID"@,
        ApiError::Unauthorized => "UNAUTHORIZED"@,
        ApiError::RoleMustHaveValidPermission => "ROLE_MUST_HAVE_VALID_PERMISSION"@,
        ApiError::UserMustHaveValidPassword => "USER_MUST_HAVE_VALID_PASSWORD"@,
        ApiError::UserMustHaveValidEmail => "USER_MUST_HAVE_VALID_EMAIL"@,
        ApiError::UserMustHaveRoles => "USER_MUST_HAVE_ROLES"@,
        ApiError::InvalidCombination => "INVALID_COMBINATION"@,
        ApiError::InvalidPeriod => "INVALID_PERIOD"@,
        ApiError::InvalidStatus => "INVALID_STATUS"@,
        ApiError::ProjectStatusInvalid => "PROJECT_STATUS_INVALID"@,
        ApiError::ProjectStatusMustBePending => "PROJECT_STATUS_MUST_BE_PENDING"@,
        ApiError::ProjectTaskDependency => "PROJECT_TASK_DEPENDENCY"@,
        ApiError::ProjectTaskMustHaveAreaId => "PROJECT_TASK_MUST_HAVE_AREA_ID"@,
        ApiError::ProjectTaskNotFound => "PROJECT_TASK_NOT_FOUND"@,
        ApiError::ProjectAreaNotFound => "PROJECT_AREA_NOT_FOUND"@,
        ApiError::ProjectReportTimeInvalid => "PROJECT_REPORT_TIME_INVALID"@,
        ApiError::UpdateFailed => "UPDATE_FAILED"@,
        ApiError::ImageInvalidMime => "IMAGE_INVALID_MIME"@,
        ApiError::HashingFailed => "HASHING_FAILED"@,
        ApiError::ProjectReportDocumentationNotFound => "PROJECT_REPORT_DOCUMENTATION_NOT_FOUND"@,
        ApiError::ProjectReportDocumentationInvalidLength => "PROJECT_REPORT_DOCUMENTATION_INVALID_LENGTH"@,
    }
}

impl ApiError {
    /// The code that the service writes in the body of the refusal.
    pub fn code(&self) -> (res: &'static str)
        ensures
            res@ == error_code(*self),
    {
        match self {
            ApiError::InvalidId => "INVALID_ID",
            ApiError::Unauthorized => "UNAUTHORIZED",
            ApiError::RoleMustHaveValidPermission => "ROLE_MUST_HAVE_VALID_PERMISSION",
            ApiError::UserMustHaveValidPassword => "USER_MUST_HAVE_VALID_PASSWORD",
            ApiError::UserMustHaveValidEmail => "USER_MUST_HAVE_VALID_EMAIL",
            ApiError::UserMustHaveRoles => "USER_MUST_HAVE_ROLES",
            ApiError::InvalidCombination => "INVALID_COMBINATION",
            ApiError::InvalidPeriod => "INVALID_PERIOD",
            ApiError::InvalidStatus => "INVALID_STATUS",
            ApiError::ProjectStatusInvalid => "PROJECT_STATUS_INVALID",
            ApiError::ProjectStatusMustBePending => "PROJECT_STATUS_MUST_BE_PENDING",
            ApiError::ProjectTaskDependency => "PROJECT_TASK_DEPENDENCY",
            ApiError::ProjectTaskMustHaveAreaId => "PROJECT_TASK_MUST_HAVE_AREA_ID",
            ApiError::ProjectTaskNotFound => "PROJECT_TASK_NOT_FOUND",
            ApiError::ProjectAreaNotFound => "PROJECT_AREA_NOT_FOUND",
            ApiError::ProjectReportTimeInvalid => "PROJECT_REPORT_TIME_INVALID",
            ApiError::UpdateFailed => "UPDATE_FAILED",
            ApiError::ImageInvalidMime => "IMAGE_INVALID_MIME",
            ApiError::HashingFailed => "HASHING_FAILED",
            ApiError::ProjectReportDocumentationNotFound => "PROJECT_REPORT_DOCUMENTATION_NOT_FOUND",
            ApiError::ProjectReportDocumentationInvalidLength => "PROJECT_REPORT_DOCUMENTATION_INVALID_LENGTH",
        }
    }
}

} // verus!
