//! Request and response bodies of the JSON API.
//!
//! Plain data shapes: the application layer turns them into and out of the
//! wire format.

use vstd::prelude::*;

verus! {

use crate::models::Tag;

/// Health probe body.
pub fn health() -> (r: &'static str)
    ensures
        r@ == "OK"@,
{
    "OK"
}

/// A user as presented by the API.
pub struct UserData {
    pub id: i64,
    pub username: String,
    pub display_name: String,
    pub role: String,
    pub last_update: Option<String>,
    pub archived: bool,
}

/// The outcome of a login attempt.
pub struct LoginResponse {
    pub success: bool,
    pub user: Option<UserData>,
    pub error: Option<String>,
    pub redirect_url: Option<String>,
}

/// A login attempt.
pub struct LoginRequest {
    pub username: String,
    pub password: String,
}

/// One technique assigned to a student.
pub struct TechniqueResponse {
    pub id: i64,
    pub technique_id: i64,
    pub technique_name: String,
    pub technique_description: String,
    pub status: String,
    pub student_notes: String,
    pub coach_notes: String,
    pub created_at: String,
    pub updated_at: String,
    pub tags: Vec<TagResponse>,
}

/// A student as presented by the API.
pub struct StudentResponse {
    pub id: i64,
    pub username: String,
    pub display_name: String,
}

/// A student together with their techniques and the caller's capabilities.
pub struct StudentTechniquesResponse {
    pub student: StudentResponse,
    pub techniques: Vec<TechniqueResponse>,
    pub can_edit_all_techniques: bool,
    pub can_assign_techniques: bool,
    pub can_create_techniques: bool,
    pub can_manage_tags: bool,
}

/// A partial update of one student technique.
pub struct TechniqueUpdateRequest {
    pub status: Option<String>,
    pub student_notes: Option<String>,
    pub coach_notes: Option<String>,
    pub technique_name: Option<String>,
    pub technique_description: Option<String>,
}

/// Query parameters of the student listing.
pub struct StudentsQueryParams {
    pub sort_by: Option<String>,
    pub include_archived: Option<bool>,
}

/// Techniques to assign to a student.
pub struct AssignTechniquesRequest {
    pub technique_ids: Vec<i64>,
}

/// A new technique to create.
pub struct CreateTechniqueRequest {
    pub name: String,
    pub description: String,
}

/// A profile update.
pub struct ProfileUpdateRequest {
    pub display_name: String,
}

/// A password change.
pub struct PasswordChangeRequest {
    pub current_password: String,
    pub new_password: String,
}

/// A new user registration.
pub struct UserRegistrationRequest {
    pub username: String,
    pub display_name: String,
    pub password: String,
    pub role: String,
}

/// A partial update of one user by an administrator.
pub struct UserUpdateRequest {
    pub username: Option<String>,
    pub display_name: Option<String>,
    pub password: Option<String>,
    pub archived: Option<bool>,
    pub role: Option<String>,
}

/// All tags.
pub struct TagsResponse {
    pub tags: Vec<Tag>,
}

/// One tag.
pub struct TagResponse {
    pub id: i64,
    pub name: String,
}

/// A new tag to create.
pub struct CreateTagRequest {
    pub name: String,
}

/// A tag attached to or removed from a technique.
pub struct TagTechniqueRequest {
    pub technique_id: i64,
    pub tag_id: i64,
}

} // verus!
