//! Roles and permissions.
//!
//! Three roles with strictly growing permission sets: a student manages their
//! own profile and techniques; a coach additionally manages students and
//! techniques; an admin additionally manages users and credentials.

use vstd::prelude::*;

verus! {

use vstd::string::StringExecFns;
use crate::text::str_eq;

/// One thing a user may be allowed to do.
#[derive(Clone, Copy, Debug, PartialEq, Eq, Hash, Structural)]
pub enum Permission {
    ViewOwnProfile,
    EditOwnProfile,
    ViewOwnTechniques,
    EditOwnNotes,
    ViewAllStudents,
    EditAllTechniques,
    AssignTechniques,
    CreateTechniques,
    RegisterUsers,
    EditUserRoles,
    DeleteUsers,
    EditUserCredentials,
}

/// A user's role.
#[derive(Clone, Debug, PartialEq, Eq, Structural)]
pub enum Role {
    Student,
    Coach,
    Admin,
}

/// The permissions every student has.
pub open spec fn student_permission(p: Permission) -> bool {
    match p {
        Permission::ViewOwnProfile => true,
        Permission::EditOwnProfile => true,
        Permission::ViewOwnTechniques => true,
        Permission::EditOwnNotes => true,
        _ => false,
    }
}

/// The permissions a coach has beyond a student's.
pub open spec fn coach_permission(p: Permission) -> bool {
    match p {
        Permission::ViewAllStudents => true,
        Permission::EditAllTechniques => true,
        Permission::AssignTechniques => true,
        Permission::CreateTechniques => true,
        Permission::RegisterUsers => true,
        _ => false,
    }
}

/// Which role holds which permission: each role extends the previous one,
/// and an admin holds every permission.
pub open spec fn role_has_permission(r: Role, p: Permission) -> bool {
    match r {
        Role::Student => student_permission(p),
        Role::Coach => student_permission(p) || coach_permission(p),
        Role::Admin => true,
    }
}

/// The catalog name of a role.
pub open spec fn spec_role_str(r: Role) -> Seq<char> {
    match r {
        Role::Student => "student"@,
        Role::Coach => "coach"@,
        Role::Admin => "admin"@,
    }
}

impl Role {
    /// The permissions of this role, each exactly once.
    pub fn permissions(&self) -> (r: Vec<Permission>)
        ensures
            forall|p: Permission| r@.contains(p) <==> role_has_permission(*self, p),
            forall|i: int, j: int| 0 <= i < j < r@.len() ==> r@[i] != r@[j],
    {
        let mut r: Vec<Permission> = Vec::new();
        r.push(Permission::ViewOwnProfile);
        r.push(Permission::EditOwnProfile);
        r.push(Permission::ViewOwnTechniques);
        r.push(Permission::EditOwnNotes);
        match self {
            Role::Student => {},
            _ => {
                r.push(Permission::ViewAllStudents);
                r.push(Permission::EditAllTechniques);
                r.push(Permission::AssignTechniques);
                r.push(Permission::CreateTechniques);
                r.push(Permission::RegisterUsers);
                match self {
                    Role::Admin => {
                        r.push(Permission::EditUserRoles);
                        r.push(Permission::DeleteUsers);
                        r.push(Permission::EditUserCredentials);
                    },
                    _ => {},
                }
            },
        }
        proof {
            assert forall|p: Permission| r@.contains(p) <==> role_has_permission(*self, p) by {
                if role_has_permission(*self, p) {
                    match p {
                        Permission::ViewOwnProfile => assert(r@[0] == p),
                        Permission::EditOwnProfile => assert(r@[1] == p),
                        Permission::ViewOwnTechniques => assert(r@[2] == p),
                        Permission::EditOwnNotes => assert(r@[3] == p),
                        Permission::ViewAllStudents => assert(r@[4] == p),
                        Permission::EditAllTechniques => assert(r@[5] == p),
                        Permission::AssignTechniques => assert(r@[6] == p),
                        Permission::CreateTechniques => assert(r@[7] == p),
                        Permission::RegisterUsers => assert(r@[8] == p),
                        Permission::EditUserRoles => assert(r@[9] == p),
                        Permission::DeleteUsers => assert(r@[10] == p),
                        Permission::EditUserCredentials => assert(r@[11] == p),
                    }
                }
            };
        }
        r
    }

    /// Whether this role holds `permission`.
    pub fn has_permission(&self, permission: Permission) -> (b: bool)
        ensures
            b == role_has_permission(*self, permission),
    {
        match self {
            Role::Admin => true,
            Role::Coach => match permission {
                Permission::EditUserRoles => false,
                Permission::DeleteUsers => false,
                Permission::EditUserCredentials => false,
                _ => true,
            },
            Role::Student => match permission {
                Permission::ViewOwnProfile => true,
                Permission::EditOwnProfile => true,
                Permission::ViewOwnTechniques => true,
                Permission::EditOwnNotes => true,
                _ => false,
            },
        }
    }

    /// The catalog name of this role.
    pub fn as_str(&self) -> (r: &'static str)
        ensures
            r@ == spec_role_str(*self),
    {
        match self {
            Role::Student => "student",
            Role::Coach => "coach",
            Role::Admin => "admin",
        }
    }

    /// Parses a catalog name back into a role: exactly the three known names
    /// are accepted, anything else is reported in the error.
    pub fn from_str(s: &str) -> (r: Result<Role, String>)
        ensures
            r is Ok <==> (s@ == spec_role_str(Role::Student) || s@ == spec_role_str(Role::Coach)
                || s@ == spec_role_str(Role::Admin)),
            r matches Ok(role) ==> s@ == spec_role_str(role),
            r matches Err(e) ==> e@ == "Unknown role: "@ + s@,
    {
        if str_eq(s, "student") {
            Ok(Role::Student)
        } else if str_eq(s, "coach") {
            Ok(Role::Coach)
        } else if str_eq(s, "admin") {
            Ok(Role::Admin)
        } else {
            let mut e = String::new();
            e.append("Unknown role: ");
            e.append(s);
            Err(e)
        }
    }
}

/// A rejected permission check.
#[derive(Clone, Copy, Debug, PartialEq, Eq, Structural)]
pub struct Forbidden;

/// An authenticated user.
pub struct User {
    pub id: i64,
    pub username: String,
    pub role: Role,
    pub display_name: String,
    pub archived: bool,
    pub last_update: Option<String>,
}

/// A user row as the database returns it.
pub struct DbUser {
    pub id: Option<i64>,
    pub username: Option<String>,
    pub role: Option<String>,
    pub display_name: Option<String>,
    pub archived: Option<bool>,
}

impl User {
    /// Whether this user's role holds `permission`.
    pub fn has_permission(&self, permission: Permission) -> (b: bool)
        ensures
            b == role_has_permission(self.role, permission),
    {
        self.role.has_permission(permission)
    }

    /// Succeeds exactly when this user's role holds `permission`.
    pub fn require_permission(&self, permission: Permission) -> (r: Result<(), Forbidden>)
        ensures
            r is Ok <==> role_has_permission(self.role, permission),
    {
        if self.role.has_permission(permission) {
            Ok(())
        } else {
            Err(Forbidden)
        }
    }

    /// Succeeds exactly when this user's role holds at least one of the
    /// given permissions.
    pub fn _require_any_permission(&self, permissions: &[Permission]) -> (r: Result<
        (),
        Forbidden,
    >)
        ensures
            r is Ok <==> exists|i: int|
                0 <= i < permissions@.len() && role_has_permission(
                    self.role,
                    #[trigger] permissions@[i],
                ),
    {
        let mut i: usize = 0;
        while i < permissions.len()
            invariant
                i <= permissions@.len(),
                forall|j: int|
                    0 <= j < i ==> !role_has_permission(self.role, #[trigger] permissions@[j]),
            decreases permissions@.len() - i,
        {
            if self.role.has_permission(permissions[i]) {
                return Ok(());
            }
            i = i + 1;
        }
        Err(Forbidden)
    }

    /// Succeeds exactly when this user's role holds every given permission.
    pub fn require_all_permissions(&self, permissions: &[Permission]) -> (r: Result<
        (),
        Forbidden,
    >)
        ensures
            r is Ok <==> forall|i: int|
                0 <= i < permissions@.len() ==> role_has_permission(
                    self.role,
                    #[trigger] permissions@[i],
                ),
    {
        let mut i: usize = 0;
        while i < permissions.len()
            invariant
                i <= permissions@.len(),
                forall|j: int|
                    0 <= j < i ==> role_has_permission(self.role, #[trigger] permissions@[j]),
            decreases permissions@.len() - i,
        {
            if !self.role.has_permission(permissions[i]) {
                return Err(Forbidden);
            }
            i = i + 1;
        }
        Ok(())
    }
}

} // verus!
