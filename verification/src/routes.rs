//! Form bodies of the HTML routes.
//!
//! Plain data shapes: the application layer binds them from submitted forms.

use vstd::prelude::*;

verus! {

/// A login form.
pub struct LoginForm {
    pub username: String,
    pub password: String,
}

/// A registration form.
pub struct RegisterForm {
    pub username: String,
    pub password: String,
    pub confirm_password: String,
    pub role: String,
}

/// An update of one student technique.
pub struct UpdateStudentTechniqueForm {
    pub status: String,
    pub coach_notes: String,
    pub student_notes: String,
    pub technique_name: String,
    pub technique_description: String,
}

/// A technique to assign.
pub struct AddTechniqueForm {
    pub technique_id: i64,
}

/// Several techniques to assign at once.
pub struct AddMultipleTechniquesForm {
    pub technique_ids: Vec<i64>,
}

/// A technique to create and assign.
pub struct CreateTechniqueForm {
    pub name: String,
    pub description: String,
}

/// A display-name update.
pub struct UpdateNameForm {
    pub display_name: String,
}

/// A password update.
pub struct UpdatePasswordForm {
    pub current_password: String,
    pub new_password: String,
    pub confirm_password: String,
}

/// A username update.
pub struct UpdateUsernameForm {
    pub username: String,
}

/// An administrator's edit of one user.
pub struct AdminEditUserForm {
    pub username: String,
    pub display_name: String,
    pub role: String,
    pub password: String,
}

} // verus!
