//! Validation error payloads.
//!
//! The response body returned when a request fails validation: a fixed
//! `"error"` status and the messages collected per field.

use vstd::prelude::*;

verus! {

use vstd::string::StringExecFns;

/// A validation failure response: per-field error messages.
pub struct ValidationResponse {
    pub status: String,
    pub errors: Vec<(String, Vec<String>)>,
}

impl ValidationResponse {
    /// Wraps collected per-field messages under the `"error"` status.
    pub fn new(errors: Vec<(String, Vec<String>)>) -> (r: ValidationResponse)
        ensures
            r.status@ == "error"@,
            r.errors == errors,
    {
        let mut status = String::new();
        status.append("error");
        ValidationResponse { status, errors }
    }

    /// A response holding exactly one message for one field.
    pub fn with_error(field: &str, message: &str) -> (r: ValidationResponse)
        ensures
            r.status@ == "error"@,
            r.errors@.len() == 1,
            r.errors@[0].0@ == field@,
            r.errors@[0].1@.len() == 1,
            r.errors@[0].1@[0]@ == message@,
    {
        let mut f = String::new();
        f.append(field);
        let mut m = String::new();
        m.append(message);
        let mut messages: Vec<String> = Vec::new();
        messages.push(m);
        let mut errors: Vec<(String, Vec<String>)> = Vec::new();
        errors.push((f, messages));
        Self::new(errors)
    }
}

} // verus!
