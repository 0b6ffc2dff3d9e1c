//! Projects: their request body.
use vstd::prelude::*;

verus! {

/// The body of creating or updating a project.
#[derive(Debug)]
pub struct ProjectBody {
    pub name: String,
    pub slug: String,
}

} // verus!
