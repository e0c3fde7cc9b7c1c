use pms::error::ApiError;
use pms::id::RecordId;
use pms::models::project::{Project, ProjectMember, ProjectMemberKind, ProjectPeriod};
use pms::models::project_role::{ProjectRole, ProjectRolePermission};
use pms::models::role::{grants, holds_owner, Role, RolePermission, RoleRequest};

fn id(n: u8) -> RecordId {
    RecordId { bytes: [n; 12] }
}

fn role(perms: Vec<RolePermission>) -> Role {
    Role { _id: Some(id(9)), name: "r".to_string(), permission: perms }
}

#[test]
fn owner_covers_everything_and_others_only_themselves() {
    assert!(RolePermission::Owner.covers(&RolePermission::DeleteCustomer));
    assert!(RolePermission::GetUsers.covers(&RolePermission::GetUsers));
    assert!(!RolePermission::GetUsers.covers(&RolePermission::GetUser));
    assert!(grants(&vec![RolePermission::GetRole, RolePermission::CreateRole], &RolePermission::CreateRole));
    assert!(!grants(&vec![RolePermission::GetRole], &RolePermission::CreateRole));
    assert!(!grants(&vec![], &RolePermission::CreateRole));
}

#[test]
fn validate_needs_one_found_role_that_grants() {
    let found = vec![None, Some(role(vec![RolePermission::GetUsers])), Some(role(vec![RolePermission::CreateProject]))];
    assert!(Role::validate(&found, &RolePermission::CreateProject));
    assert!(!Role::validate(&found, &RolePermission::DeleteUser));
    assert!(!Role::validate(&vec![None, None], &RolePermission::GetUsers));
    assert!(Role::validate(&vec![Some(role(vec![RolePermission::Owner]))], &RolePermission::DeleteRole));
}

#[test]
fn set_as_owner_grants_every_permission() {
    let mut r = role(vec![RolePermission::GetUsers]);
    r.set_as_owner();
    assert_eq!(r.permission, vec![RolePermission::GetUsers, RolePermission::Owner]);
    for p in [RolePermission::CreateUser, RolePermission::DeleteRole, RolePermission::CreateProject] {
        assert!(r.allows(&p));
    }
}

#[test]
fn the_first_users_role_is_owner() {
    let r = Role::owner();
    assert_eq!(r.name, "Owner");
    assert_eq!(r.permission, vec![RolePermission::Owner]);
    assert!(r._id.is_none());
}

#[test]
fn authorize_refuses_issuers_without_roles_or_permission() {
    let found = vec![Some(role(vec![RolePermission::CreateRole]))];
    assert_eq!(Role::authorize(&vec![id(1)], &found, &RolePermission::CreateRole), Ok(()));
    assert_eq!(Role::authorize(&vec![], &found, &RolePermission::CreateRole), Err(ApiError::Unauthorized));
    assert_eq!(Role::authorize(&vec![id(1)], &found, &RolePermission::DeleteRole), Err(ApiError::Unauthorized));
}

#[test]
fn role_requests_may_not_ask_for_owner() {
    assert!(holds_owner(&vec![RolePermission::GetRole, RolePermission::Owner]));
    let bad = RoleRequest { name: "x".to_string(), permission: vec![RolePermission::Owner] };
    assert_eq!(bad.into_role().unwrap_err(), ApiError::RoleMustHaveValidPermission);
    let good = RoleRequest { name: "x".to_string(), permission: vec![RolePermission::GetRole] };
    let r = good.into_role().unwrap();
    assert_eq!(r.name, "x");
    assert_eq!(r.permission, vec![RolePermission::GetRole]);
    let mut stored = role(vec![]);
    let req = RoleRequest { name: "y".to_string(), permission: vec![RolePermission::GetUsers] };
    assert_eq!(req.apply_to(&mut stored), Ok(()));
    assert_eq!(stored.name, "y");
    assert_eq!(stored._id, Some(id(9)));
    let req = RoleRequest { name: "z".to_string(), permission: vec![RolePermission::Owner] };
    assert_eq!(req.apply_to(&mut stored), Err(ApiError::RoleMustHaveValidPermission));
}

fn project_with_members(members: Vec<ProjectMember>) -> Project {
    Project {
        _id: Some(id(1)),
        customer_id: id(2),
        name: "p".to_string(),
        code: "P".to_string(),
        period: ProjectPeriod { start: 0, end: 10 },
        status: vec![],
        area: None,
        member: Some(members),
        leave: None,
    }
}

#[test]
fn a_member_gets_the_roles_of_its_first_entry() {
    let members = vec![
        ProjectMember { _id: id(5), name: None, kind: ProjectMemberKind::Direct, role_id: vec![id(20)] },
        ProjectMember { _id: id(6), name: None, kind: ProjectMemberKind::Indirect, role_id: vec![id(21), id(22)] },
        ProjectMember { _id: id(5), name: None, kind: ProjectMemberKind::Direct, role_id: vec![id(23)] },
    ];
    let p = project_with_members(members);
    assert_eq!(ProjectRole::member_roles(&p, &id(5)), Some(&vec![id(20)]));
    assert_eq!(ProjectRole::member_roles(&p, &id(6)), Some(&vec![id(21), id(22)]));
    assert_eq!(ProjectRole::member_roles(&p, &id(7)), None);
    let mut q = project_with_members(vec![]);
    q.member = None;
    assert_eq!(ProjectRole::member_roles(&q, &id(5)), None);
}

#[test]
fn project_roles_grant_like_service_roles() {
    let owner = ProjectRole::owner(id(1));
    assert_eq!(owner.name, "Owner");
    assert_eq!(owner.project_id, id(1));
    assert!(owner.allows(&ProjectRolePermission::DeleteTask));
    let reporter = ProjectRole {
        _id: Some(id(3)),
        project_id: id(1),
        name: "reporter".to_string(),
        permission: vec![ProjectRolePermission::CreateReport],
    };
    assert!(reporter.allows(&ProjectRolePermission::CreateReport));
    assert!(!reporter.allows(&ProjectRolePermission::CreateTask));
    let found = vec![None, Some(reporter)];
    assert!(ProjectRole::validate(&found, &ProjectRolePermission::CreateReport));
    assert!(!ProjectRole::validate(&found, &ProjectRolePermission::UpdateRole));
    assert!(!ProjectRole::validate(&vec![], &ProjectRolePermission::GetTask));
}
