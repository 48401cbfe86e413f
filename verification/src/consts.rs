//! Fixed names and defaults of the operator.

use vstd::prelude::*;

verus! {

pub open spec fn spec_group() -> Seq<char> {
    "operato.rs"@
}

pub open spec fn spec_version() -> Seq<char> {
    "v1alpha1"@
}

pub open spec fn spec_kind() -> Seq<char> {
    "OpenFaaSFunction"@
}

pub open spec fn spec_plural() -> Seq<char> {
    "openfaasfunctions"@
}

pub open spec fn spec_crd_name() -> Seq<char> {
    "openfaasfunctions.operato.rs"@
}

pub open spec fn spec_functions_default_namespace() -> Seq<char> {
    "openfaas-fn"@
}

pub open spec fn spec_functions_namespace_env_var() -> Seq<char> {
    "OPENFAAS_FUNCTIONS_NAMESPACE"@
}

pub open spec fn spec_gateway_default_url() -> Seq<char> {
    "http://gateway.openfaas:8080"@
}

/// The API group of the custom resource.
pub fn group() -> (r: &'static str)
    ensures
        r@ == spec_group(),
{
    "operato.rs"
}

/// The served version of the custom resource.
pub fn version() -> (r: &'static str)
    ensures
        r@ == spec_version(),
{
    "v1alpha1"
}

/// The kind of the custom resource.
pub fn kind() -> (r: &'static str)
    ensures
        r@ == spec_kind(),
{
    "OpenFaaSFunction"
}

/// The plural resource name of the custom resource.
pub fn plural() -> (r: &'static str)
    ensures
        r@ == spec_plural(),
{
    "openfaasfunctions"
}

/// The metadata name the cluster registers the definition under.
pub fn crd_name() -> (r: &'static str)
    ensures
        r@ == spec_crd_name(),
{
    "openfaasfunctions.operato.rs"
}

/// The namespace the operator watches when none is configured.
pub fn functions_default_namespace() -> (r: &'static str)
    ensures
        r@ == spec_functions_default_namespace(),
{
    "openfaas-fn"
}

/// The environment variable that overrides the function namespace.
pub fn functions_namespace_env_var() -> (r: &'static str)
    ensures
        r@ == spec_functions_namespace_env_var(),
{
    "OPENFAAS_FUNCTIONS_NAMESPACE"
}

/// The gateway the client mode talks to when none is configured.
pub fn gateway_default_url() -> (r: &'static str)
    ensures
        r@ == spec_gateway_default_url(),
{
    "http://gateway.openfaas:8080"
}

/// The environment variable that selects the update strategy.
pub fn update_strategy_env_var() -> (r: &'static str)
    ensures
        r@ == "OPF_FO_C_UPDATE_STRATEGY"@,
{
    "OPF_FO_C_UPDATE_STRATEGY"
}

/// The annotation key of the last-applied spec.
pub fn last_applied_annotation() -> (r: &'static str)
    ensures
        r@ == crate::crds::impls::last_applied_annotation_key(),
{
    "openfaasfunctions.operato.rs/last-applied-spec"
}

} // verus!
