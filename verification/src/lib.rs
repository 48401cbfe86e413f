//! A verified core for an OpenFaaS-style Kubernetes function operator.
//!
//! A custom resource declares a function (image, environment, resources,
//! secrets, node constraints, filesystem policy); the operator projects that
//! declaration into a Deployment and a Service, keeps both in line with the
//! declaration, and reports health back through a status condition.
//!
//! This crate holds the logic of that operator: the data model, the
//! projection into child objects, the drift detection, and the per-resource
//! reconcile state machine. Everything here is pure: all input is handed in
//! as plain values and every decision is returned as a value. The I/O shell
//! that talks to an API server lives outside the crate and merely performs
//! the actions this crate decides on.

pub mod cli;
pub mod consts;
pub mod crds;
pub mod docker_actions;
pub mod faas_client;
pub mod k8s;
pub mod operator;
pub mod quantity;
pub mod string_map;
pub mod util;
pub mod utils;
