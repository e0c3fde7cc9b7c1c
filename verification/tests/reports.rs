use pms::error::ApiError;
use pms::id::RecordId;
use pms::models::project_incident_report::ProjectIncidentReportRequestQuery;
use pms::models::project::ProjectStatusKind;
use pms::models::project_progress_report::{
    check_working_time, documentation_with_ids, documentation_from_requests, remove_in_turn, removals_fit_in,
    ProjectProgressReportDocumentationRequest,
};

fn id(n: u8) -> RecordId {
    RecordId { bytes: [n; 12] }
}

#[test]
fn working_times_must_lie_within_a_day_and_end_after_they_start() {
    assert_eq!(check_working_time(&None), Ok(()));
    assert_eq!(check_working_time(&Some([[8, 0], [17, 30]])), Ok(()));
    assert_eq!(check_working_time(&Some([[0, 0], [23, 59]])), Ok(()));
    for t in [[[24, 0], [25, 0]], [[8, 60], [9, 0]], [[8, 0], [24, 0]], [[8, 0], [9, 60]], [[9, 0], [9, 0]], [[10, 0], [9, 59]]] {
        assert_eq!(check_working_time(&Some(t)), Err(ApiError::ProjectReportTimeInvalid));
    }
}

#[test]
fn positions_are_removed_one_after_the_other() {
    let mut v = vec!['a', 'b', 'c', 'd', 'e'];
    assert!(removals_fit_in(v.len(), &vec![1, 2]));
    remove_in_turn(&mut v, &vec![1, 2]);
    assert_eq!(v, vec!['a', 'c', 'e']);
    assert!(!removals_fit_in(2, &vec![0, 1]));
    assert!(removals_fit_in(2, &vec![0, 0]));
    let mut w = vec![1, 2];
    remove_in_turn(&mut w, &vec![]);
    assert_eq!(w, vec![1, 2]);
}

#[test]
fn announced_pictures_get_ids() {
    let reqs = vec![
        ProjectProgressReportDocumentationRequest { description: Some("wall".to_string()), extension: "image/png".to_string() },
        ProjectProgressReportDocumentationRequest { description: None, extension: "image/jpeg".to_string() },
    ];
    let docs = documentation_with_ids(reqs, &vec![id(1), id(2)]);
    assert_eq!(docs.len(), 2);
    assert_eq!(docs[0]._id, id(1));
    assert_eq!(docs[0].description.as_deref(), Some("wall"));
    assert_eq!(docs[1].extension, "image/jpeg");
    let fresh = documentation_from_requests(vec![ProjectProgressReportDocumentationRequest { description: None, extension: "x".to_string() }]);
    assert_eq!(fresh.len(), 1);
}

#[test]
fn a_breakdown_incident_stops_the_project() {
    assert_eq!(ProjectIncidentReportRequestQuery { breakdown: true }.project_status_after(), Some(ProjectStatusKind::Breakdown));
    assert_eq!(ProjectIncidentReportRequestQuery { breakdown: false }.project_status_after(), None);
}
