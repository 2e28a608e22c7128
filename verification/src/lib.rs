//! Domain logic of the Catlas geospatial API: configuration, request
//! validation, draft versioning, and publication checks.

use vstd::prelude::*;

pub mod auth;
pub mod config;
pub mod drafts;
pub mod errors;
pub mod publication;
pub mod references;
pub mod tags;
pub mod text;
pub mod topology;
pub mod types;
pub mod upload;
pub mod validation;
pub mod versions;
pub mod viewport;
pub mod worlds;

verus! {

} // verus!
