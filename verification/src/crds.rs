//! The custom resource: its spec, its status, and the projection of the
//! spec into the owned Deployment and Service.

pub mod defs;
pub mod impls;
pub mod json;
pub mod json_laws;
