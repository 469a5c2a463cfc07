//! Domain records carried between the database and the views.

use vstd::prelude::*;

verus! {

/// A technique of the syllabus.
pub struct Technique {
    pub id: i64,
    pub name: String,
    pub description: String,
    pub coach_id: i64,
    pub coach_name: String,
}

/// A technique row as the database returns it.
pub struct DbTechnique {
    pub id: Option<i64>,
    pub name: Option<String>,
    pub description: Option<String>,
    pub coach_id: Option<i64>,
    pub coach_name: Option<String>,
}

/// A tag on a technique.
pub struct Tag {
    pub id: i64,
    pub name: String,
}

/// A user row joined with the time of their latest activity.
pub struct UserWithActivityDto {
    pub id: Option<i64>,
    pub username: Option<String>,
    pub role: Option<String>,
    pub display_name: Option<String>,
    pub archived: Option<bool>,
    pub last_update: Option<String>,
}

} // verus!
