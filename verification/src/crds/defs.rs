//! The declaration's data model: spec, status, and the errors of the
//! projection into child objects.

use vstd::prelude::*;
use crate::string_map::StringMap;

verus! {

#[verifier::ext_equal]
pub struct FunctionResourcesView {
    pub memory: Option<Seq<char>>,
    pub cpu: Option<Seq<char>>,
}

/// Memory and cpu for one of `limits` or `requests`.
/// Each value must match `^([+-]?[0-9.]+)([eEinumkKMGTP][-+]?[0-9])$`.
#[derive(Debug, Clone, PartialEq, Eq)]
pub struct FunctionResources {
    /// memory is the memory limit for the function
    pub memory: Option<String>,
    /// cpu is the cpu limit for the function
    pub cpu: Option<String>,
}

impl View for FunctionResources {
    type V = FunctionResourcesView;

    open spec fn view(&self) -> FunctionResourcesView {
        FunctionResourcesView { memory: self.memory.deep_view(), cpu: self.cpu.deep_view() }
    }
}

impl DeepView for FunctionResources {
    type V = FunctionResourcesView;

    open spec fn deep_view(&self) -> FunctionResourcesView {
        self.view()
    }
}

#[verifier::ext_equal]
pub struct OpenFaasFunctionSpecView {
    pub service: Seq<char>,
    pub image: Seq<char>,
    pub namespace: Option<Seq<char>>,
    pub env_process: Option<Seq<char>>,
    pub env_vars: Option<Seq<(Seq<char>, Seq<char>)>>,
    pub constraints: Option<Seq<Seq<char>>>,
    pub secrets: Option<Seq<Seq<char>>>,
    pub labels: Option<Seq<(Seq<char>, Seq<char>)>>,
    pub annotations: Option<Seq<(Seq<char>, Seq<char>)>>,
    pub limits: Option<FunctionResourcesView>,
    pub requests: Option<FunctionResourcesView>,
    pub read_only_root_filesystem: Option<bool>,
    pub secrets_mount_path: Option<Seq<char>>,
}

/// The desired state a user declares for one function.
#[derive(Debug, Clone, PartialEq, Eq)]
pub struct OpenFaasFunctionSpec {
    /// service is the name of the function deployment
    pub service: String,

    /// image is a fully-qualified container image
    pub image: String,

    /// namespace for the function
    pub namespace: Option<String>,

    /// envProcess overrides the fprocess environment variable and can be used
    /// with the watchdog
    pub env_process: Option<String>,

    /// envVars can be provided to set environment variables for the function
    /// runtime
    pub env_vars: Option<StringMap>,

    /// constraints are specific to the faas-provider
    pub constraints: Option<Vec<String>>,

    /// list of names of secrets in the same namespace that will be mounted to
    /// secretsMountPath
    pub secrets: Option<Vec<String>>,

    /// labels are metadata for functions which may be used by the
    /// faas-provider or the gateway
    pub labels: Option<StringMap>,

    /// annotations are metadata for functions which may be used by the
    /// faas-provider or the gateway
    pub annotations: Option<StringMap>,

    /// limits for function
    pub limits: Option<FunctionResources>,

    /// requests of resources requested by function
    pub requests: Option<FunctionResources>,

    /// readOnlyRootFilesystem removes write-access from the root filesystem
    /// mount-point
    pub read_only_root_filesystem: Option<bool>,

    /// secretsMountPath is the path where secrets will be mounted
    /// defaults to /var/openfaas/secrets
    pub secrets_mount_path: Option<String>,
}

impl View for OpenFaasFunctionSpec {
    type V = OpenFaasFunctionSpecView;

    open spec fn view(&self) -> OpenFaasFunctionSpecView {
        OpenFaasFunctionSpecView {
            service: self.service@,
            image: self.image@,
            namespace: self.namespace.deep_view(),
            env_process: self.env_process.deep_view(),
            env_vars: self.env_vars.deep_view(),
            constraints: self.constraints.deep_view(),
            secrets: self.secrets.deep_view(),
            labels: self.labels.deep_view(),
            annotations: self.annotations.deep_view(),
            limits: self.limits.deep_view(),
            requests: self.requests.deep_view(),
            read_only_root_filesystem: self.read_only_root_filesystem,
            secrets_mount_path: self.secrets_mount_path.deep_view(),
        }
    }
}

impl DeepView for OpenFaasFunctionSpec {
    type V = OpenFaasFunctionSpecView;

    open spec fn deep_view(&self) -> OpenFaasFunctionSpecView {
        self.view()
    }
}

/// The closed set of reason tags a status condition can carry.
#[derive(Debug, Clone, Copy, PartialEq, Eq, Structural)]
pub enum OpenFaasFunctionPossibleStatus {
    Okay,
    InvalidCRDNamespace,
    InvalidFunctionNamespace,
    CPUQuantity,
    MemoryQuantity,
    DeploymentAlreadyExists,
    DeploymentNotReady,
    ServiceAlreadyExists,
    SecretsNotFound,
}

#[verifier::ext_equal]
pub struct OpenFaasFunctionStatusConditionMessageView {
    pub message: Option<Seq<char>>,
}

/// The human-readable text of a condition.
#[derive(Debug, Clone, PartialEq, Eq)]
pub struct OpenFaasFunctionStatusConditionMessage {
    pub message: Option<String>,
}

impl View for OpenFaasFunctionStatusConditionMessage {
    type V = OpenFaasFunctionStatusConditionMessageView;

    open spec fn view(&self) -> OpenFaasFunctionStatusConditionMessageView {
        OpenFaasFunctionStatusConditionMessageView { message: self.message.deep_view() }
    }
}

impl DeepView for OpenFaasFunctionStatusConditionMessage {
    type V = OpenFaasFunctionStatusConditionMessageView;

    open spec fn deep_view(&self) -> OpenFaasFunctionStatusConditionMessageView {
        self.view()
    }
}

#[verifier::ext_equal]
pub struct OpenFaasFunctionStatusConditionStatusView {
    pub status: Seq<char>,
}

/// The wire value of a condition's status: `True` or `False`.
#[derive(Debug, Clone, PartialEq, Eq)]
pub struct OpenFaasFunctionStatusConditionStatus {
    pub status: String,
}

impl View for OpenFaasFunctionStatusConditionStatus {
    type V = OpenFaasFunctionStatusConditionStatusView;

    open spec fn view(&self) -> OpenFaasFunctionStatusConditionStatusView {
        OpenFaasFunctionStatusConditionStatusView { status: self.status@ }
    }
}

impl DeepView for OpenFaasFunctionStatusConditionStatus {
    type V = OpenFaasFunctionStatusConditionStatusView;

    open spec fn deep_view(&self) -> OpenFaasFunctionStatusConditionStatusView {
        self.view()
    }
}

#[derive(Debug, Clone, Copy, PartialEq, Eq, Structural)]
pub enum OpenFaasFunctionStatusConditionType {
    Ready,
}

#[verifier::ext_equal]
pub struct OpenFaasFunctionStatusConditionView {
    pub type_: OpenFaasFunctionStatusConditionType,
    pub status: OpenFaasFunctionStatusConditionStatusView,
    pub message: OpenFaasFunctionStatusConditionMessageView,
    pub reason: OpenFaasFunctionPossibleStatus,
    pub last_update_time: Option<Seq<char>>,
}

/// One condition of the declaration's status.
#[derive(Debug, Clone, PartialEq, Eq)]
pub struct OpenFaasFunctionStatusCondition {
    pub type_: OpenFaasFunctionStatusConditionType,
    pub status: OpenFaasFunctionStatusConditionStatus,
    pub message: OpenFaasFunctionStatusConditionMessage,
    pub reason: OpenFaasFunctionPossibleStatus,
    pub last_update_time: Option<String>,
}

impl View for OpenFaasFunctionStatusCondition {
    type V = OpenFaasFunctionStatusConditionView;

    open spec fn view(&self) -> OpenFaasFunctionStatusConditionView {
        OpenFaasFunctionStatusConditionView {
            type_: self.type_,
            status: self.status@,
            message: self.message@,
            reason: self.reason,
            last_update_time: self.last_update_time.deep_view(),
        }
    }
}

impl DeepView for OpenFaasFunctionStatusCondition {
    type V = OpenFaasFunctionStatusConditionView;

    open spec fn deep_view(&self) -> OpenFaasFunctionStatusConditionView {
        self.view()
    }
}

#[verifier::ext_equal]
pub struct OpenFaasFunctionStatusView {
    pub conditions: Seq<OpenFaasFunctionStatusConditionView>,
}

/// The declaration's status: a list of conditions, in practice a single
/// `Ready` condition.
#[derive(Debug, Clone, PartialEq, Eq)]
pub struct OpenFaasFunctionStatus {
    pub conditions: Vec<OpenFaasFunctionStatusCondition>,
}

impl View for OpenFaasFunctionStatus {
    type V = OpenFaasFunctionStatusView;

    open spec fn view(&self) -> OpenFaasFunctionStatusView {
        OpenFaasFunctionStatusView { conditions: self.conditions.deep_view() }
    }
}

impl DeepView for OpenFaasFunctionStatus {
    type V = OpenFaasFunctionStatusView;

    open spec fn deep_view(&self) -> OpenFaasFunctionStatusView {
        self.view()
    }
}

/// A cpu or memory string that does not match the quantity grammar, by origin.
#[derive(Debug, Clone, Copy, PartialEq, Eq, Structural)]
pub enum IntoQuantityError {
    CPU,
    Memory,
}

/// Why a spec could not be projected into a Deployment.
#[derive(Debug, Clone, Copy, PartialEq, Eq, Structural)]
pub enum FunctionSpecIntoDeploymentError {
    Quantity(IntoQuantityError),
}

/// Why a declaration could not be turned into an owned Deployment.
#[derive(Debug, Clone, Copy, PartialEq, Eq, Structural)]
pub enum FunctionIntoDeploymentError {
    OwnerReference,
    FunctionSpec(FunctionSpecIntoDeploymentError),
}

/// Why a declaration could not be turned into an owned Service.
#[derive(Debug, Clone, Copy, PartialEq, Eq, Structural)]
pub enum FunctionIntoServiceError {
    OwnerReference,
}

#[derive(Debug, Clone, Copy, PartialEq, Eq, Structural)]
pub enum IntoDeploymentError {
    FailedToGetOwnerReference,
}

#[derive(Debug, Clone, Copy, PartialEq, Eq, Structural)]
pub enum IntoServiceError {
    FailedToGetOwnerReference,
}

#[verifier::ext_equal]
pub struct CrdMetaView {
    pub name: Option<Seq<char>>,
    pub namespace: Option<Seq<char>>,
    pub uid: Option<Seq<char>>,
}

/// The identity fields of a declaration as the cluster serves it.
#[derive(Debug, Clone, PartialEq, Eq)]
pub struct CrdMeta {
    pub name: Option<String>,
    pub namespace: Option<String>,
    pub uid: Option<String>,
}

impl View for CrdMeta {
    type V = CrdMetaView;

    open spec fn view(&self) -> CrdMetaView {
        CrdMetaView {
            name: self.name.deep_view(),
            namespace: self.namespace.deep_view(),
            uid: self.uid.deep_view(),
        }
    }
}

impl DeepView for CrdMeta {
    type V = CrdMetaView;

    open spec fn deep_view(&self) -> CrdMetaView {
        self.view()
    }
}

#[verifier::ext_equal]
pub struct OpenFaaSFunctionView {
    pub metadata: CrdMetaView,
    pub spec: OpenFaasFunctionSpecView,
    pub status: Option<OpenFaasFunctionStatusView>,
}

/// One declaration: identity, desired state, and the last reported status.
#[derive(Debug, Clone, PartialEq, Eq)]
pub struct OpenFaaSFunction {
    pub metadata: CrdMeta,
    pub spec: OpenFaasFunctionSpec,
    pub status: Option<OpenFaasFunctionStatus>,
}

impl View for OpenFaaSFunction {
    type V = OpenFaaSFunctionView;

    open spec fn view(&self) -> OpenFaaSFunctionView {
        OpenFaaSFunctionView {
            metadata: self.metadata@,
            spec: self.spec@,
            status: self.status.deep_view(),
        }
    }
}

impl DeepView for OpenFaaSFunction {
    type V = OpenFaaSFunctionView;

    open spec fn deep_view(&self) -> OpenFaaSFunctionView {
        self.view()
    }
}

/// A per-field difference between a spec and a live Deployment, the unit of
/// the reserved finer-grained update strategy.
#[derive(Debug, Clone, PartialEq, Eq)]
pub enum DeploymentDiff {
    /// `Container` is missing. Name: `OpenFaasFunctionSpec::service`
    Container,
    /// If `Container` is not missing in the deployment containers, but `Image` is different
    Image,
    /// `EnvProcess` is missing or different
    EnvProcess,
    /// `EnvVars` are missing
    NoEnvVars,
    /// An `EnvVar` is missing or different
    EnvVar(String),
    /// `Constraints` are missing
    NoConstraints,
    /// A `Constraint` is missing
    Constraints(String),
    /// `Secrets` are missing
    NoSecrets,
    /// A `Secret` is missing or different
    Secrets(String),
    /// `Labels` are missing
    NoLabels,
    /// A `Label` is missing or different
    Labels(String),
    /// `Annotations` are missing
    NoAnnotations,
    /// An `Annotation` is missing or different
    Annotation(String),
    /// `Limits` are missing or different
    Limits(ResourceDiff),
    /// `Requests` are missing or different
    Requests(ResourceDiff),
    /// `ReadOnlyRootFilesystem` is missing or different
    ReadOnlyRootFilesystem,
}

#[derive(Debug, Clone, Copy, PartialEq, Eq, Structural)]
pub enum ResourceDiff {
    Memory,
    CPU,
}

} // verus!
