use pms::models::project::{progress_days, progress_end, progress_start, DAY_MILLIS};
use pms::error::ApiError;
use pms::id::RecordId;
use pms::models::project::{
    Project, ProjectArea, ProjectAreaRequest, ProjectMemberKind, ProjectMemberRequest, ProjectPeriod,
    ProjectPeriodRequest, ProjectRequest, ProjectStatus, ProjectStatusKind,
};

fn id(n: u8) -> RecordId {
    RecordId { bytes: [n; 12] }
}

fn project(status: Vec<ProjectStatusKind>) -> Project {
    Project {
        _id: Some(id(1)),
        customer_id: id(2),
        name: "Bridge".to_string(),
        code: "BR".to_string(),
        period: ProjectPeriod { start: 100, end: 200 },
        status: status.into_iter().map(|kind| ProjectStatus { kind, time: 5, message: None }).collect(),
        area: None,
        member: None,
        leave: None,
    }
}

#[test]
fn a_new_project_is_pending_with_a_valid_period() {
    let req = ProjectRequest {
        customer_id: id(3),
        name: "Dam".to_string(),
        code: "D1".to_string(),
        period: ProjectPeriodRequest { start: 1000, end: 2000 },
        leave: Some(vec![1500]),
    };
    let p = Project::from_request(req, 777).unwrap();
    assert!(p._id.is_none());
    assert_eq!(p.customer_id, id(3));
    assert_eq!(p.name, "Dam");
    assert_eq!(p.period.start, 1000);
    assert_eq!(p.period.end, 2000);
    assert_eq!(p.status.len(), 1);
    assert_eq!(p.status[0].kind, ProjectStatusKind::Pending);
    assert_eq!(p.status[0].time, 777);
    assert!(p.area.is_none() && p.member.is_none());
    assert_eq!(p.leave, Some(vec![1500]));
    for (start, end) in [(2000, 1000), (1000, 1000)] {
        let req = ProjectRequest {
            customer_id: id(3),
            name: "Dam".to_string(),
            code: "D1".to_string(),
            period: ProjectPeriodRequest { start, end },
            leave: None,
        };
        assert_eq!(Project::from_request(req, 0).unwrap_err(), ApiError::InvalidPeriod);
    }
}

#[test]
fn a_recorded_status_becomes_current() {
    let mut p = project(vec![ProjectStatusKind::Pending]);
    assert_eq!(p.current_status(), Some(ProjectStatusKind::Pending));
    p.push_status(ProjectStatusKind::Running, 9, Some("go".to_string()));
    assert_eq!(p.current_status(), Some(ProjectStatusKind::Running));
    assert_eq!(p.status.len(), 2);
    assert_eq!(p.status[0].time, 9);
    assert_eq!(p.status[0].message.as_deref(), Some("go"));
    assert_eq!(p.status[1].kind, ProjectStatusKind::Pending);
    assert_eq!(project(vec![]).current_status(), None);
}

#[test]
fn status_rules() {
    assert_eq!(project(vec![ProjectStatusKind::Pending]).require_pending(), Ok(()));
    assert_eq!(
        project(vec![ProjectStatusKind::Running, ProjectStatusKind::Pending]).require_pending(),
        Err(ApiError::ProjectStatusMustBePending)
    );
    let broken = project(vec![ProjectStatusKind::Breakdown]);
    assert_eq!(broken.check_resume(ProjectStatusKind::Running), Ok(()));
    assert_eq!(broken.check_resume(ProjectStatusKind::Paused), Err(ApiError::InvalidStatus));
    assert_eq!(project(vec![ProjectStatusKind::Paused]).check_resume(ProjectStatusKind::Running), Ok(()));
    assert_eq!(
        project(vec![ProjectStatusKind::Finished]).check_resume(ProjectStatusKind::Running),
        Err(ApiError::ProjectStatusInvalid)
    );
    assert!(project(vec![ProjectStatusKind::Pending]).starts_on_report());
    assert!(project(vec![ProjectStatusKind::Paused]).starts_on_report());
    assert!(!project(vec![ProjectStatusKind::Running]).starts_on_report());
    assert!(!project(vec![ProjectStatusKind::Breakdown]).starts_on_report());
}

#[test]
fn members_are_added_by_kind() {
    let mut p = project(vec![ProjectStatusKind::Pending]);
    let reqs = vec![
        ProjectMemberRequest { _id: None, name: Some("Ann".to_string()), kind: ProjectMemberKind::Support, role_id: vec![id(30)] },
        ProjectMemberRequest { _id: None, name: None, kind: ProjectMemberKind::Support, role_id: vec![] },
        ProjectMemberRequest { _id: Some(id(40)), name: Some("ignored".to_string()), kind: ProjectMemberKind::Direct, role_id: vec![id(31)] },
        ProjectMemberRequest { _id: Some(id(41)), name: None, kind: ProjectMemberKind::Indirect, role_id: vec![] },
        ProjectMemberRequest { _id: None, name: None, kind: ProjectMemberKind::Direct, role_id: vec![] },
    ];
    let found = vec![true, true, true, false, true];
    let fresh = vec![id(50), id(51), id(52), id(53), id(54)];
    p.add_member_with_ids(reqs, &found, &fresh);
    let members = p.member.as_ref().unwrap();
    assert_eq!(members.len(), 2);
    assert_eq!(members[0]._id, id(50));
    assert_eq!(members[0].name.as_deref(), Some("Ann"));
    assert_eq!(members[0].kind, ProjectMemberKind::Support);
    assert_eq!(members[0].role_id, vec![id(30)]);
    assert_eq!(members[1]._id, id(40));
    assert_eq!(members[1].name, None);
    assert_eq!(members[1].role_id, vec![id(31)]);
    let more = vec![ProjectMemberRequest { _id: None, name: Some("Bo".to_string()), kind: ProjectMemberKind::Support, role_id: vec![] }];
    p.add_member(more, &vec![false]);
    let members = p.member.as_ref().unwrap();
    assert_eq!(members.len(), 3);
    assert_eq!(members[2].name.as_deref(), Some("Bo"));
    let mut q = project(vec![]);
    q.add_member(vec![], &vec![]);
    assert_eq!(q.member.as_ref().map(|m| m.len()), Some(0));
}

#[test]
fn areas_are_added_and_removed() {
    let mut p = project(vec![ProjectStatusKind::Pending]);
    assert!(!p.has_area(&id(60)));
    p.add_area_with_ids(
        vec![ProjectAreaRequest { name: "North".to_string() }, ProjectAreaRequest { name: "South".to_string() }],
        &vec![id(60), id(61)],
    );
    let names: Vec<&str> = p.area.as_ref().unwrap().iter().map(|a| a.name.as_str()).collect();
    assert_eq!(names, vec!["North", "South"]);
    assert!(p.has_area(&id(61)));
    p.remove_area(&id(60));
    assert_eq!(p.area.as_ref().unwrap().len(), 1);
    assert_eq!(p.area.as_ref().unwrap()[0]._id, id(61));
    p.remove_area(&id(99));
    assert_eq!(p.area.as_ref().unwrap().len(), 1);
    p.add_area(vec![ProjectAreaRequest { name: "East".to_string() }]);
    assert_eq!(p.area.as_ref().unwrap().len(), 2);
    assert_eq!(p.area.as_ref().unwrap()[1].name, "East");
    let mut none = project(vec![]);
    none.remove_area(&id(1));
    assert!(none.area.is_none());
}

#[test]
fn adding_then_removing_an_area_restores_the_list() {
    let mut p = project(vec![]);
    p.area = Some(vec![ProjectArea { _id: id(70), name: "A".to_string() }, ProjectArea { _id: id(71), name: "B".to_string() }]);
    p.add_area_with_ids(vec![ProjectAreaRequest { name: "C".to_string() }], &vec![id(72)]);
    p.remove_area(&id(72));
    let ids: Vec<RecordId> = p.area.as_ref().unwrap().iter().map(|a| a._id).collect();
    assert_eq!(ids, vec![id(70), id(71)]);
}

#[test]
fn only_the_first_area_with_an_id_is_removed() {
    let mut p = project(vec![]);
    p.area = Some(vec![
        ProjectArea { _id: id(70), name: "A".to_string() },
        ProjectArea { _id: id(71), name: "B".to_string() },
        ProjectArea { _id: id(70), name: "C".to_string() },
    ]);
    p.remove_area(&id(70));
    let names: Vec<&str> = p.area.as_ref().unwrap().iter().map(|a| a.name.as_str()).collect();
    assert_eq!(names, vec!["B", "C"]);
}

#[test]
fn progress_curves_span_planned_tasks_and_reports() {
    assert_eq!(progress_start(&vec![500, 300], &vec![400]), 300);
    assert_eq!(progress_start(&vec![500], &vec![200, 700]), 200);
    assert_eq!(progress_start(&vec![], &vec![900, 800]), 800);
    assert_eq!(progress_start(&vec![], &vec![]), 0);
    assert_eq!(progress_end(&vec![500, 900], &vec![600], 42), 900);
    assert_eq!(progress_end(&vec![500], &vec![100, 950], 42), 950);
    assert_eq!(progress_end(&vec![], &vec![7, 3], 42), 7);
    assert_eq!(progress_end(&vec![], &vec![], 42), 42);
    assert_eq!(progress_days(0, 0), 1);
    assert_eq!(progress_days(0, 3 * DAY_MILLIS + 5), 4);
    assert_eq!(progress_days(DAY_MILLIS, 0), 0);
    assert_eq!(progress_days(5, 0), 1);
}
