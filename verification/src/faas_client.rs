//! The pure parts of the OpenFaaS gateway client: the request bodies and
//! the classification of response codes. The HTTP transport lives in the
//! shell around the library.

use vstd::prelude::*;
use crate::crds::defs::OpenFaasFunctionSpec;

verus! {

/// Credentials for the gateway.
#[derive(Debug, Clone, PartialEq, Eq)]
pub struct BasicAuth {
    pub username: String,
    pub password: String,
}

impl BasicAuth {
    pub fn new(username: String, password: String) -> (r: BasicAuth)
        ensures
            r.username@ == username@,
            r.password@ == password@,
    {
        BasicAuth { username, password }
    }
}

/// The body of a deploy or update call: the declared function spec.
#[derive(Debug, Clone, PartialEq, Eq)]
pub struct FunctionDeployment {
    pub open_faas_function_spec: OpenFaasFunctionSpec,
}

impl FunctionDeployment {
    pub fn new(open_faas_function_spec: OpenFaasFunctionSpec) -> (r: FunctionDeployment)
        ensures
            r.open_faas_function_spec == open_faas_function_spec,
    {
        FunctionDeployment { open_faas_function_spec }
    }

    pub fn spec(&self) -> (r: &OpenFaasFunctionSpec)
        ensures
            r == &self.open_faas_function_spec,
    {
        &self.open_faas_function_spec
    }
}

/// The body of a delete call.
#[derive(Debug, Clone, PartialEq, Eq)]
pub struct DeleteFunctionRequest {
    pub function_name: String,
}

impl DeleteFunctionRequest {
    pub fn new(function_name: String) -> (r: DeleteFunctionRequest)
        ensures
            r.function_name@ == function_name@,
    {
        DeleteFunctionRequest { function_name }
    }
}

/// How the gateway answered, by status code class.
#[derive(Debug, Clone, Copy, PartialEq, Eq, Structural)]
pub enum FaasResponse {
    /// The call went through: 200 or 202.
    Accepted,
    /// 400.
    BadRequest,
    /// 404.
    NotFound,
    /// 500.
    InternalServerError,
    /// Any other code, carried verbatim.
    UnexpectedStatusCode(u16),
}

/// Classifies a gateway status code; 200 and 202 are the accepted codes.
pub fn classify_status_code(code: u16) -> (r: FaasResponse)
    ensures
        r == (if code == 200 || code == 202 {
            FaasResponse::Accepted
        } else if code == 400 {
            FaasResponse::BadRequest
        } else if code == 404 {
            FaasResponse::NotFound
        } else if code == 500 {
            FaasResponse::InternalServerError
        } else {
            FaasResponse::UnexpectedStatusCode(code)
        }),
{
    if code == 200 || code == 202 {
        FaasResponse::Accepted
    } else if code == 400 {
        FaasResponse::BadRequest
    } else if code == 404 {
        FaasResponse::NotFound
    } else if code == 500 {
        FaasResponse::InternalServerError
    } else {
        FaasResponse::UnexpectedStatusCode(code)
    }
}

} // verus!
