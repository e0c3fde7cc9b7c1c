//! Roles inside one project and the permissions they grant to its members.

use crate::id::RecordId;
use crate::models::project::{Project, ProjectMember};
use vstd::prelude::*;

verus! {

/// A permission that a project role can hold.
#[derive(Clone, Copy, Debug, PartialEq, Eq, Structural)]
pub enum ProjectRolePermission {
    Owner,
    CreateRole,
    UpdateRole,
    DeleteRole,
    GetRoles,
    GetRole,
    CreateTask,
    UpdateTask,
    DeleteTask,
    GetTasks,
    GetTask,
    CreateReport,
    CreateIncident,
}

/// A held project permission covers a requested one when it is `Owner` or the same one.
pub open spec fn project_permission_covers(
    held: ProjectRolePermission,
    permit: ProjectRolePermission,
) -> bool {
    held == ProjectRolePermission::Owner || held == permit
}

/// Some permission of the list covers `permit`.
pub open spec fn project_permissions_grant(
    perms: Seq<ProjectRolePermission>,
    permit: ProjectRolePermission,
) -> bool {
    exists|i: int| 0 <= i < perms.len() && project_permission_covers(#[trigger] perms[i], permit)
}

/// Some project role that was found grants `permit`.
pub open spec fn found_project_roles_grant(
    roles: Seq<Option<ProjectRole>>,
    permit: ProjectRolePermission,
) -> bool {
    exists|i: int|
        0 <= i < roles.len() && (#[trigger] roles[i] matches Some(r)
            && project_permissions_grant(r.permission@, permit))
}

/// The position of the first member with id `user`, if there is one.
pub open spec fn is_first_member(members: Seq<ProjectMember>, user: RecordId, k: int) -> bool {
    &&& 0 <= k < members.len()
    &&& members[k]._id == user
    &&& forall|j: int| 0 <= j < k ==> (#[trigger] members[j])._id != user
}

/// A role inside a project.
#[derive(Debug)]
pub struct ProjectRole {
    pub _id: Option<RecordId>,
    pub project_id: RecordId,
    pub name: String,
    pub permission: Vec<ProjectRolePermission>,
}

/// The body of a request that creates or replaces a project role.
#[derive(Debug)]
pub struct ProjectRoleRequest {
    pub name: String,
    pub permission: Vec<ProjectRolePermission>,
}

/// A project role as the service shows it.
#[derive(Debug)]
pub struct ProjectRoleResponse {
    pub _id: String,
    pub name: String,
    pub permission: Vec<ProjectRolePermission>,
}

/// What a listing of project roles is narrowed to.
#[derive(Debug)]
pub struct ProjectRoleQuery {
    pub project_id: Option<RecordId>,
}

impl ProjectRolePermission {
    /// Whether holding this permission allows what `permit` guards.
    pub fn covers(&self, permit: &ProjectRolePermission) -> (res: bool)
        ensures
            res == project_permission_covers(*self, *permit),
    {
        match self {
            ProjectRolePermission::Owner => true,
            _ => *self == *permit,
        }
    }
}

impl ProjectRole {
    /// A role made for the creator of a project: named `Owner`, holding `Owner`.
    pub fn owner(project_id: RecordId) -> (res: ProjectRole)
        ensures
            res._id is None,
            res.project_id == project_id,
            res.name@ == "Owner"@,
            res.permission@ == seq![ProjectRolePermission::Owner],
    {
        let mut permission: Vec<ProjectRolePermission> = Vec::new();
        permission.push(ProjectRolePermission::Owner);
        ProjectRole { _id: None, project_id, name: "Owner".to_owned(), permission }
    }

    /// Whether this role allows what `permit` guards.
    pub fn allows(&self, permit: &ProjectRolePermission) -> (res: bool)
        ensures
            res == project_permissions_grant(self.permission@, *permit),
    {
        let perms = &self.permission;
        let mut i: usize = 0;
        while i < perms.len()
            invariant
                0 <= i <= perms.len(),
                perms@ == self.permission@,
                forall|j: int|
                    0 <= j < i ==> !project_permission_covers(#[trigger] perms@[j], *permit),
            decreases perms.len() - i,
        {
            if perms[i].covers(permit) {
                proof {
                    assert(project_permission_covers(perms@[i as int], *permit));
                    assert(project_permissions_grant(self.permission@, *permit));
                }
                return true;
            }
            i = i + 1;
        }
        false
    }

    /// The role ids that the project gives to the user `user_id`: those of the
    /// first member with that id. `None` when the project has no such member.
    pub fn member_roles<'a>(project: &'a Project, user_id: &RecordId) -> (res: Option<&'a Vec<RecordId>>)
        ensures
            res is Some <==> exists|k: int| is_first_member(project.members(), *user_id, k),
            res matches Some(ids) ==> exists|k: int|
                is_first_member(project.members(), *user_id, k) && ids@ == project.members()[k].role_id@,
    {
        match &project.member {
            None => None,
            Some(members) => {
                let mut i: usize = 0;
                while i < members.len()
                    invariant
                        0 <= i <= members.len(),
                        project.members() == members@,
                        forall|j: int| 0 <= j < i ==> (#[trigger] members@[j])._id != *user_id,
                    decreases members.len() - i,
                {
                    if members[i]._id.same(user_id) {
                        proof {
                            assert(is_first_member(members@, *user_id, i as int));
                        }
                        return Some(&members[i].role_id);
                    }
                    i = i + 1;
                }
                None
            },
        }
    }

    /// Whether the project roles of a member allow `permit`. `found` holds, for
    /// each of the member's role ids in turn, the role that the lookup found
    /// (`None` where none was found).
    pub fn validate(found: &Vec<Option<ProjectRole>>, permit: &ProjectRolePermission) -> (res:
        bool)
        ensures
            res == found_project_roles_grant(found@, *permit),
    {
        let mut i: usize = 0;
        while i < found.len()
            invariant
                0 <= i <= found.len(),
                forall|j: int|
                    0 <= j < i ==> !(#[trigger] found@[j] matches Some(r)
                        && project_permissions_grant(r.permission@, *permit)),
            decreases found.len() - i,
        {
            match &found[i] {
                Some(role) => {
                    if role.allows(permit) {
                        return true;
                    }
                },
                None => {},
            }
            i = i + 1;
        }
        false
    }
}

/// `Owner` allows everything inside a project.
pub proof fn lemma_project_owner_covers_every_permission(permit: ProjectRolePermission)
    ensures
        project_permissions_grant(seq![ProjectRolePermission::Owner], permit),
{
    assert(project_permission_covers(seq![ProjectRolePermission::Owner][0], permit));
}

/// A project permission other than `Owner` covers only itself. So a
/// permission list without `Owner` grants exactly the permissions it holds,
/// one with `Owner` grants every permission, and the roles found for a member
/// grant a permission exactly when one of them holds it or holds `Owner`.
pub proof fn lemma_project_grant_is_holding(
    perms: Seq<ProjectRolePermission>,
    permit: ProjectRolePermission,
    roles: Seq<Option<ProjectRole>>,
)
    ensures
        forall|held: ProjectRolePermission|
            held != ProjectRolePermission::Owner ==> (#[trigger] project_permission_covers(
                held,
                permit,
            ) <==> held == permit),
        !perms.contains(ProjectRolePermission::Owner) ==> (project_permissions_grant(perms, permit)
            <==> perms.contains(permit)),
        perms.contains(ProjectRolePermission::Owner) ==> project_permissions_grant(perms, permit),
        found_project_roles_grant(roles, permit) <==> exists|i: int|
            0 <= i < roles.len() && (#[trigger] roles[i] matches Some(r) && (r.permission@.contains(
                ProjectRolePermission::Owner,
            ) || r.permission@.contains(permit))),
{
    assert forall|ps: Seq<ProjectRolePermission>|
        project_permissions_grant(ps, permit) <==> (ps.contains(ProjectRolePermission::Owner)
            || ps.contains(permit)) by {
        if project_permissions_grant(ps, permit) {
            let i = choose|i: int| 0 <= i < ps.len() && project_permission_covers(ps[i], permit);
            if ps[i] == ProjectRolePermission::Owner {
                assert(ps.contains(ProjectRolePermission::Owner));
            } else {
                assert(ps.contains(permit));
            }
        }
        if ps.contains(ProjectRolePermission::Owner) {
            let i = choose|i: int| 0 <= i < ps.len() && ps[i] == ProjectRolePermission::Owner;
            assert(project_permission_covers(ps[i], permit));
        }
        if ps.contains(permit) {
            let i = choose|i: int| 0 <= i < ps.len() && ps[i] == permit;
            assert(project_permission_covers(ps[i], permit));
        }
    }
    if found_project_roles_grant(roles, permit) {
        let i = choose|i: int|
            0 <= i < roles.len() && (#[trigger] roles[i] matches Some(r)
                && project_permissions_grant(r.permission@, permit));
        assert(roles[i] matches Some(r) && (r.permission@.contains(ProjectRolePermission::Owner)
            || r.permission@.contains(permit)));
    }
    if exists|i: int|
        0 <= i < roles.len() && (#[trigger] roles[i] matches Some(r) && (r.permission@.contains(
            ProjectRolePermission::Owner,
        ) || r.permission@.contains(permit))) {
        let i = choose|i: int|
            0 <= i < roles.len() && (#[trigger] roles[i] matches Some(r) && (r.permission@.contains(
                ProjectRolePermission::Owner,
            ) || r.permission@.contains(permit)));
        assert(roles[i] matches Some(r) && project_permissions_grant(r.permission@, permit));
    }
}

/// A member that the project does not list gets no role ids, so nothing is granted to it.
pub proof fn lemma_non_member_has_no_roles(project: Project, user: RecordId)
    requires
        forall|i: int|
            0 <= i < project.members().len() ==> (#[trigger] project.members()[i])._id != user,
    ensures
        !exists|k: int| is_first_member(project.members(), user, k),
{
}

} // verus!
