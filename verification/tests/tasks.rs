use pms::error::ApiError;
use pms::id::RecordId;
use pms::models::project::{Project, ProjectArea, ProjectPeriod};
use ProjectTaskStatusKind::{Finished, Pending, Running};
use pms::models::project_task::{
    ancestor_positions, distinct_ids, find_task, first_appearances, FinishCascade, ProjectTaskPeriod, ProjectTaskQuery, ProjectTaskQueryKind, ProjectTaskRecord,
    ProjectTaskStatus, ProjectTaskStatusKind, ProjectTaskVolume,
};

fn id(n: u8) -> RecordId {
    RecordId { bytes: [n; 12] }
}

fn task(me: u8, project: u8, area: u8, parent: Option<u8>, status: Vec<ProjectTaskStatusKind>) -> ProjectTaskRecord {
    ProjectTaskRecord {
        _id: Some(id(me)),
        project_id: id(project),
        area_id: id(area),
        task_id: parent.map(id),
        user_id: Some(vec![id(90)]),
        name: format!("t{}", me),
        description: None,
        period: None,
        status: status.into_iter().map(|kind| ProjectTaskStatus { kind, time: 0, message: None }).collect(),
        volume: Some(ProjectTaskVolume { value: 3, unit: "m".to_string() }),
    }
}

fn query(project: Option<u8>, kind: Option<ProjectTaskQueryKind>) -> ProjectTaskQuery {
    ProjectTaskQuery { _id: None, project_id: project.map(id), task_id: None, area_id: None, limit: None, kind }
}

fn tree() -> Vec<ProjectTaskRecord> {

    vec![
        task(1, 100, 10, None, vec![Pending]),
        task(2, 100, 10, Some(1), vec![Pending]),
        task(3, 100, 11, Some(1), vec![Finished]),
        task(4, 100, 11, None, vec![Running]),
        task(5, 200, 12, None, vec![Pending]),
        task(6, 200, 12, Some(5), vec![Pending]),
    ]
}

#[test]
fn distinct_ids_keep_first_appearances() {
    assert_eq!(distinct_ids(&vec![id(3), id(1), id(3), id(2), id(1)]), vec![id(3), id(1), id(2)]);
    assert_eq!(distinct_ids(&vec![]), Vec::<RecordId>::new());
}

#[test]
fn task_queries_select_by_kind() {
    let tasks = tree();
    assert_eq!(query(Some(100), Some(ProjectTaskQueryKind::Root)).select(&tasks), Ok(Some(vec![0, 3])));
    assert_eq!(query(Some(100), Some(ProjectTaskQueryKind::Dependency)).select(&tasks), Ok(Some(vec![0])));
    assert_eq!(query(Some(100), Some(ProjectTaskQueryKind::Base)).select(&tasks), Ok(Some(vec![1, 2, 3])));
    assert_eq!(query(None, Some(ProjectTaskQueryKind::Root)).select(&tasks), Ok(Some(vec![0, 3, 4])));
    assert_eq!(query(None, Some(ProjectTaskQueryKind::Dependency)).select(&tasks), Ok(None));
    assert_eq!(query(Some(200), None).select(&tasks), Ok(Some(vec![4, 5])));
    assert_eq!(query(Some(7), None).select(&tasks), Ok(None));
}

#[test]
fn task_queries_filter_and_limit() {
    let tasks = tree();
    let mut q = query(Some(100), None);
    q.area_id = Some(id(11));
    assert_eq!(q.select(&tasks), Ok(Some(vec![2, 3])));
    let mut q = query(None, None);
    q.task_id = Some(id(1));
    assert_eq!(q.select(&tasks), Ok(Some(vec![1, 2])));
    let mut q = query(None, None);
    q._id = Some(id(6));
    assert_eq!(q.select(&tasks), Ok(Some(vec![5])));
    let mut q = query(Some(100), None);
    q.limit = Some(2);
    assert_eq!(q.select(&tasks), Ok(Some(vec![0, 1])));
    q.limit = Some(10);
    assert_eq!(q.select(&tasks), Ok(Some(vec![0, 1, 2, 3])));
    q.limit = Some(0);
    assert_eq!(q.select(&tasks), Err(ApiError::ProjectTaskNotFound));
    let dep = query(Some(100), Some(ProjectTaskQueryKind::Dependency));
    assert!(dep.matches(&tasks[0], &tasks));
    assert!(!dep.matches(&tasks[1], &tasks));
}

#[test]
fn finishing_the_last_open_sibling_finishes_the_parent() {

    let tasks = tree();
    let siblings = vec![task(2, 100, 10, Some(1), vec![Pending]), task(3, 100, 11, Some(1), vec![Finished])];
    let mut t = task(2, 100, 10, Some(1), vec![Pending]);
    assert_eq!(t.update_status(Finished, 44, None, Some(&siblings)), Ok(FinishCascade::FinishParent(id(1))));
    assert_eq!(t.status.len(), 2);
    assert_eq!(t.status[0].kind, Finished);
    assert_eq!(t.status[0].time, 44);
    let open = vec![task(2, 100, 10, Some(1), vec![Pending]), task(3, 100, 11, Some(1), vec![Running])];
    let mut t = task(2, 100, 10, Some(1), vec![Pending]);
    assert_eq!(t.update_status(Finished, 45, None, Some(&open)), Ok(FinishCascade::Nothing));
    let mut t = task(2, 100, 10, Some(1), vec![Pending]);
    assert_eq!(t.update_status(Finished, 46, None, None), Err(ApiError::UpdateFailed));
    let mut t = task(2, 100, 10, Some(1), vec![Pending]);
    assert_eq!(t.update_status(Running, 47, Some("on".to_string()), None), Ok(FinishCascade::Nothing));
    assert_eq!(t.status[0].message.as_deref(), Some("on"));
    let roots = vec![tasks[0].clone_shallow(), task(4, 100, 11, None, vec![Finished])];
    let mut root = task(1, 100, 10, None, vec![Running]);
    assert_eq!(root.update_status(Finished, 48, None, Some(&roots)), Ok(FinishCascade::FinishProject));
}

trait Shallow {
    fn clone_shallow(&self) -> ProjectTaskRecord;
}

impl Shallow for ProjectTaskRecord {
    fn clone_shallow(&self) -> ProjectTaskRecord {
        ProjectTaskRecord {
            _id: self._id,
            project_id: self.project_id,
            area_id: self.area_id,
            task_id: self.task_id,
            user_id: None,
            name: self.name.clone(),
            description: None,
            period: self.period,
            status: self.status.iter().map(|s| ProjectTaskStatus { kind: s.kind, time: s.time, message: None }).collect(),
            volume: None,
        }
    }
}

#[test]
fn periods_are_refused_on_tasks_with_subtasks_or_when_empty() {

    let tasks = tree();
    let mut parent = task(1, 100, 10, None, vec![Pending]);
    let period = ProjectTaskPeriod { start: 10, end: 20 };
    assert_eq!(parent.update_period(&tasks, period), Err(ApiError::ProjectTaskDependency));
    assert!(parent.period.is_none());
    let mut leaf = task(2, 100, 10, Some(1), vec![Pending]);
    assert_eq!(leaf.update_period(&tasks, ProjectTaskPeriod { start: 20, end: 20 }), Err(ApiError::InvalidPeriod));
    assert!(leaf.period.is_none());
    assert_eq!(leaf.update_period(&tasks, period), Ok(()));
    assert_eq!(leaf.period.map(|p| (p.start, p.end)), Some((10, 20)));
    let _ = Finished;
}

#[test]
fn a_subtask_takes_the_area_of_its_parent_which_loses_volume_and_users() {

    let mut parent = task(1, 100, 10, None, vec![Pending]);
    let mut child = task(7, 100, 99, Some(1), vec![Pending]);
    child.adopt_parent(&mut parent);
    assert_eq!(child.area_id, id(10));
    assert!(parent.volume.is_none());
    assert!(parent.user_id.is_none());
    let project = Project {
        _id: Some(id(100)),
        customer_id: id(2),
        name: "p".to_string(),
        code: "p".to_string(),
        period: ProjectPeriod { start: 0, end: 1 },
        status: vec![],
        area: Some(vec![ProjectArea { _id: id(10), name: "A".to_string() }]),
        member: None,
        leave: None,
    };
    assert_eq!(child.check_area(&project), Ok(()));
    let stray = task(8, 100, 99, None, vec![Pending]);
    assert_eq!(stray.check_area(&project), Err(ApiError::ProjectAreaNotFound));
}

#[test]
fn ancestors_are_walked_up_from_the_parent() {
    let tasks = vec![
        task(7, 100, 10, Some(8), vec![Pending]),
        task(9, 100, 10, None, vec![Pending]),
        task(8, 100, 10, Some(9), vec![Pending]),
        task(8, 100, 10, None, vec![Pending]),
    ];
    assert_eq!(find_task(&tasks, &id(8)), Some(2));
    assert_eq!(find_task(&tasks, &id(5)), None);
    assert_eq!(ancestor_positions(&tasks, &Some(id(7))), Some(vec![0, 2, 1]));
    assert_eq!(ancestor_positions(&tasks, &Some(id(8))), Some(vec![2, 1]));
    assert_eq!(ancestor_positions(&tasks, &None), Some(vec![]));
    assert_eq!(ancestor_positions(&tasks, &Some(id(5))), Some(vec![]));
}

#[test]
fn ancestors_stop_where_the_parent_is_missing() {
    let tasks = vec![task(2, 100, 10, Some(3), vec![Pending]), task(3, 100, 10, Some(4), vec![Pending])];
    assert_eq!(ancestor_positions(&tasks, &Some(id(2))), Some(vec![0, 1]));
}

#[test]
fn ancestors_in_a_loop_are_refused() {
    let tasks = vec![task(2, 100, 10, Some(3), vec![Pending]), task(3, 100, 10, Some(2), vec![Pending])];
    assert_eq!(ancestor_positions(&tasks, &Some(id(2))), None);
}

#[test]
fn first_appearances_give_one_position_per_id() {
    assert_eq!(first_appearances(&vec![id(3), id(1), id(3), id(2), id(1)]), vec![0, 1, 3]);
    assert_eq!(first_appearances(&vec![]), Vec::<usize>::new());
}
