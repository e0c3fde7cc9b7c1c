//! Service-wide roles and the permissions they grant.

use crate::error::ApiError;
use crate::id::RecordId;
use vstd::prelude::*;

verus! {

/// A permission that a service-wide role can hold.
#[derive(Clone, Copy, Debug, PartialEq, Eq, Structural)]
pub enum RolePermission {
    Owner,
    GetUsers,
    GetUser,
    CreateUser,
    DeleteUser,
    UpdateUser,
    GetRoles,
    GetRole,
    CreateRole,
    DeleteRole,
    UpdateRole,
    GetCustomers,
    GetCustomer,
    CreateCustomer,
    DeleteCustomer,
    UpdateCustomer,
    GetProjects,
    GetProject,
    CreateProject,
}

/// A held permission covers a requested one when it is `Owner` or the same one.
pub open spec fn permission_covers(held: RolePermission, permit: RolePermission) -> bool {
    held == RolePermission::Owner || held == permit
}

/// Some permission of the list covers `permit`.
pub open spec fn permissions_grant(perms: Seq<RolePermission>, permit: RolePermission) -> bool {
    exists|i: int| 0 <= i < perms.len() && permission_covers(#[trigger] perms[i], permit)
}

/// Some role that was found grants `permit`.
pub open spec fn found_roles_grant(roles: Seq<Option<Role>>, permit: RolePermission) -> bool {
    exists|i: int|
        0 <= i < roles.len() && (#[trigger] roles[i] matches Some(r) && permissions_grant(
            r.permission@,
            permit,
        ))
}

/// A service-wide role.
#[derive(Debug)]
pub struct Role {
    pub _id: Option<RecordId>,
    pub name: String,
    pub permission: Vec<RolePermission>,
}

/// What a listing of roles is narrowed to.
#[derive(Debug)]
pub struct RoleQuery {
    pub _id: Option<RecordId>,
    pub limit: Option<usize>,
}

/// The body of a request that creates or replaces a role.
#[derive(Debug)]
pub struct RoleRequest {
    pub name: String,
    pub permission: Vec<RolePermission>,
}

/// A role as the service shows it.
#[derive(Debug)]
pub struct RoleResponse {
    pub _id: String,
    pub name: String,
    pub permission: Vec<RolePermission>,
}

impl RolePermission {
    /// Whether holding this permission allows what `permit` guards.
    pub fn covers(&self, permit: &RolePermission) -> (res: bool)
        ensures
            res == permission_covers(*self, *permit),
    {
        match self {
            RolePermission::Owner => true,
            _ => *self == *permit,
        }
    }
}

/// Whether some permission in `perms` covers `permit`.
pub fn grants(perms: &Vec<RolePermission>, permit: &RolePermission) -> (res: bool)
    ensures
        res == permissions_grant(perms@, *permit),
{
    let mut i: usize = 0;
    while i < perms.len()
        invariant
            0 <= i <= perms.len(),
            forall|j: int| 0 <= j < i ==> !permission_covers(#[trigger] perms@[j], *permit),
        decreases perms.len() - i,
    {
        if perms[i].covers(permit) {
            return true;
        }
        i = i + 1;
    }
    false
}

/// Whether a permission list holds `Owner`.
pub fn holds_owner(perms: &Vec<RolePermission>) -> (res: bool)
    ensures
        res == perms@.contains(RolePermission::Owner),
{
    let mut i: usize = 0;
    while i < perms.len()
        invariant
            0 <= i <= perms.len(),
            forall|j: int| 0 <= j < i ==> perms@[j] != RolePermission::Owner,
        decreases perms.len() - i,
    {
        if perms[i] == RolePermission::Owner {
            proof {
                assert(perms@[i as int] == RolePermission::Owner);
            }
            return true;
        }
        i = i + 1;
    }
    false
}

impl Role {
    /// Whether this role allows what `permit` guards.
    pub fn allows(&self, permit: &RolePermission) -> (res: bool)
        ensures
            res == permissions_grant(self.permission@, *permit),
    {
        grants(&self.permission, permit)
    }

    /// Whether the roles of an issuer allow `permit`. `found` holds, for each of
    /// the issuer's role ids in turn, the role that the lookup found (`None` where
    /// none was found).
    pub fn validate(found: &Vec<Option<Role>>, permit: &RolePermission) -> (res: bool)
        ensures
            res == found_roles_grant(found@, *permit),
    {
        let mut i: usize = 0;
        while i < found.len()
            invariant
                0 <= i <= found.len(),
                forall|j: int|
                    0 <= j < i ==> !(#[trigger] found@[j] matches Some(r) && permissions_grant(
                        r.permission@,
                        *permit,
                    )),
            decreases found.len() - i,
        {
            match &found[i] {
                Some(role) => {
                    if role.allows(permit) {
                        return true;
                    }
                },
                None => {},
            }
            i = i + 1;
        }
        false
    }

    /// Gives this role every permission by adding `Owner` to it.
    pub fn set_as_owner(&mut self)
        ensures
            final(self)._id == old(self)._id,
            final(self).name == old(self).name,
            final(self).permission@ == old(self).permission@.push(RolePermission::Owner),
            forall|p: RolePermission| permissions_grant(final(self).permission@, p),
    {
        self.permission.push(RolePermission::Owner);
        proof {
            let n = self.permission@.len() - 1;
            assert forall|p: RolePermission| permissions_grant(self.permission@, p) by {
                assert(permission_covers(self.permission@[n], p));
            }
        }
    }

    /// The role that the first user of the service receives: named `Owner`,
    /// holding `Owner`.
    pub fn owner() -> (res: Role)
        ensures
            res._id is None,
            res.name@ == "Owner"@,
            res.permission@ == seq![RolePermission::Owner],
    {
        let mut role = Role { _id: None, name: "Owner".to_owned(), permission: Vec::new() };
        role.set_as_owner();
        role
    }

    /// Checks the issuer of a guarded request: refused unless the issuer holds a
    /// role and one of the roles found for it allows `permit`.
    pub fn authorize(
        issuer_roles: &Vec<RecordId>,
        found: &Vec<Option<Role>>,
        permit: &RolePermission,
    ) -> (res: Result<(), ApiError>)
        ensures
            res is Ok <==> (issuer_roles@.len() > 0 && found_roles_grant(found@, *permit)),
            res matches Err(e) ==> e == ApiError::Unauthorized,
    {
        if issuer_roles.len() == 0 || !Role::validate(found, permit) {
            Err(ApiError::Unauthorized)
        } else {
            Ok(())
        }
    }
}

impl RoleRequest {
    /// The role that a create request makes: refused when it asks for `Owner`.
    pub fn into_role(self) -> (res: Result<Role, ApiError>)
        ensures
            res is Err <==> self.permission@.contains(RolePermission::Owner),
            res matches Err(e) ==> e == ApiError::RoleMustHaveValidPermission,
            res matches Ok(r) ==> r._id is None && r.name == self.name && r.permission
                == self.permission,
    {
        if holds_owner(&self.permission) {
            Err(ApiError::RoleMustHaveValidPermission)
        } else {
            Ok(Role { _id: None, name: self.name, permission: self.permission })
        }
    }

    /// Replaces the name and permissions of an existing role by this request's:
    /// refused when it asks for `Owner`.
    pub fn apply_to(self, role: &mut Role) -> (res: Result<(), ApiError>)
        ensures
            res is Err <==> self.permission@.contains(RolePermission::Owner),
            res matches Err(e) ==> e == ApiError::RoleMustHaveValidPermission,
            final(role)._id == old(role)._id,
            final(role).name == self.name,
            final(role).permission == self.permission,
    {
        let refused = holds_owner(&self.permission);
        role.name = self.name;
        role.permission = self.permission;
        if refused {
            Err(ApiError::RoleMustHaveValidPermission)
        } else {
            Ok(())
        }
    }
}

/// `Owner` allows everything.
pub proof fn lemma_owner_covers_every_permission(permit: RolePermission)
    ensures
        permission_covers(RolePermission::Owner, permit),
        permissions_grant(seq![RolePermission::Owner], permit),
{
    assert(permission_covers(seq![RolePermission::Owner][0], permit));
}

/// A permission covers itself, so a role that holds `permit` allows it.
pub proof fn lemma_held_permission_is_granted(perms: Seq<RolePermission>, permit: RolePermission)
    requires
        perms.contains(permit),
    ensures
        permissions_grant(perms, permit),
{
    let i = choose|i: int| 0 <= i < perms.len() && perms[i] == permit;
    assert(permission_covers(perms[i], permit));
}

/// Without `Owner`, a role allows exactly the permissions it holds.
pub proof fn lemma_grant_without_owner(perms: Seq<RolePermission>, permit: RolePermission)
    requires
        !perms.contains(RolePermission::Owner),
    ensures
        permissions_grant(perms, permit) <==> perms.contains(permit),
{
    if permissions_grant(perms, permit) {
        let i = choose|i: int| 0 <= i < perms.len() && permission_covers(perms[i], permit);
        assert(perms[i] != RolePermission::Owner);
        assert(perms[i] == permit);
    }
    if perms.contains(permit) {
        lemma_held_permission_is_granted(perms, permit);
    }
}

/// The roles found for an issuer grant a permission exactly when one of them
/// holds it or holds `Owner`.
pub proof fn lemma_found_roles_grant_is_holding(roles: Seq<Option<Role>>, permit: RolePermission)
    ensures
        found_roles_grant(roles, permit) <==> exists|i: int|
            0 <= i < roles.len() && (#[trigger] roles[i] matches Some(r) && (r.permission@.contains(
                RolePermission::Owner,
            ) || r.permission@.contains(permit))),
{
    assert forall|ps: Seq<RolePermission>|
        permissions_grant(ps, permit) <==> (ps.contains(RolePermission::Owner) || ps.contains(
            permit,
        )) by {
        if permissions_grant(ps, permit) {
            let i = choose|i: int| 0 <= i < ps.len() && permission_covers(ps[i], permit);
            if ps[i] == RolePermission::Owner {
                assert(ps.contains(RolePermission::Owner));
            } else {
                assert(ps.contains(permit));
            }
        }
        if ps.contains(RolePermission::Owner) {
            let i = choose|i: int| 0 <= i < ps.len() && ps[i] == RolePermission::Owner;
            assert(permission_covers(ps[i], permit));
        }
        if ps.contains(permit) {
            let i = choose|i: int| 0 <= i < ps.len() && ps[i] == permit;
            assert(permission_covers(ps[i], permit));
        }
    }
    if found_roles_grant(roles, permit) {
        let i = choose|i: int|
            0 <= i < roles.len() && (#[trigger] roles[i] matches Some(r) && permissions_grant(
                r.permission@,
                permit,
            ));
        assert(roles[i] matches Some(r) && (r.permission@.contains(RolePermission::Owner)
            || r.permission@.contains(permit)));
    }
    if exists|i: int|
        0 <= i < roles.len() && (#[trigger] roles[i] matches Some(r) && (r.permission@.contains(
            RolePermission::Owner,
        ) || r.permission@.contains(permit))) {
        let i = choose|i: int|
            0 <= i < roles.len() && (#[trigger] roles[i] matches Some(r) && (r.permission@.contains(
                RolePermission::Owner,
            ) || r.permission@.contains(permit)));
        assert(roles[i] matches Some(r) && permissions_grant(r.permission@, permit));
    }
}

} // verus!
