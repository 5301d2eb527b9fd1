//! Generates server and client code for an HTTP API from its OpenAPI
//! description, with the naming, validation and type-building rules
//! proved against their specifications.
use vstd::prelude::*;

pub mod text;
pub mod error;
pub mod case;
pub mod names;
pub mod method;
pub mod route_path;
pub mod model;
pub mod document;
pub mod describe;
pub mod types;
pub mod typebuild;
pub mod walk;
pub mod routes;
pub mod plan;
pub mod order;
pub mod gen_types;
pub mod gen_routes;
pub mod generate;
pub mod serverfull;
pub mod index_law;
pub mod petstore;
pub mod test_service;

verus! {

} // verus!
