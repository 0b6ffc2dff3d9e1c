//! Environments: their request body.
use vstd::prelude::*;

verus! {

/// The body of creating an environment.
#[derive(Debug)]
pub struct EnvBody {
    pub name: String,
}

} // verus!
