//! Plain-value models of the Kubernetes objects the operator owns.
//!
//! Only the fields the operator reads or writes are modeled. The I/O shell
//! converts between these models and the wire types; the logic and its
//! contracts speak of the views defined here.

use vstd::prelude::*;
use crate::string_map::StringMap;

verus! {

#[verifier::ext_equal]
pub struct OwnerReferenceView {
    pub api_version: Seq<char>,
    pub kind: Seq<char>,
    pub name: Seq<char>,
    pub uid: Seq<char>,
    pub controller: Option<bool>,
    pub block_owner_deletion: Option<bool>,
}

/// A reference from a child object to the declaration that owns it.
#[derive(Debug, Clone, PartialEq, Eq)]
pub struct OwnerReference {
    pub api_version: String,
    pub kind: String,
    pub name: String,
    pub uid: String,
    pub controller: Option<bool>,
    pub block_owner_deletion: Option<bool>,
}

impl View for OwnerReference {
    type V = OwnerReferenceView;

    open spec fn view(&self) -> OwnerReferenceView {
        OwnerReferenceView {
            api_version: self.api_version@,
            kind: self.kind@,
            name: self.name@,
            uid: self.uid@,
            controller: self.controller,
            block_owner_deletion: self.block_owner_deletion,
        }
    }
}

impl DeepView for OwnerReference {
    type V = OwnerReferenceView;

    open spec fn deep_view(&self) -> OwnerReferenceView {
        self.view()
    }
}

#[verifier::ext_equal]
pub struct ObjectMetaView {
    pub name: Option<Seq<char>>,
    pub namespace: Option<Seq<char>>,
    pub labels: Option<Seq<(Seq<char>, Seq<char>)>>,
    pub annotations: Option<Seq<(Seq<char>, Seq<char>)>>,
    pub owner_references: Option<Seq<OwnerReferenceView>>,
}

#[derive(Debug, Clone, PartialEq, Eq)]
pub struct ObjectMeta {
    pub name: Option<String>,
    pub namespace: Option<String>,
    pub labels: Option<StringMap>,
    pub annotations: Option<StringMap>,
    pub owner_references: Option<Vec<OwnerReference>>,
}

impl View for ObjectMeta {
    type V = ObjectMetaView;

    open spec fn view(&self) -> ObjectMetaView {
        ObjectMetaView {
            name: self.name.deep_view(),
            namespace: self.namespace.deep_view(),
            labels: self.labels.deep_view(),
            annotations: self.annotations.deep_view(),
            owner_references: self.owner_references.deep_view(),
        }
    }
}

impl DeepView for ObjectMeta {
    type V = ObjectMetaView;

    open spec fn deep_view(&self) -> ObjectMetaView {
        self.view()
    }
}

#[verifier::ext_equal]
pub struct HTTPGetActionView {
    pub path: Option<Seq<char>>,
    pub port: i32,
    pub scheme: Option<Seq<char>>,
}

#[derive(Debug, Clone, PartialEq, Eq)]
pub struct HTTPGetAction {
    pub path: Option<String>,
    pub port: i32,
    pub scheme: Option<String>,
}

impl View for HTTPGetAction {
    type V = HTTPGetActionView;

    open spec fn view(&self) -> HTTPGetActionView {
        HTTPGetActionView {
            path: self.path.deep_view(),
            port: self.port,
            scheme: self.scheme.deep_view(),
        }
    }
}

impl DeepView for HTTPGetAction {
    type V = HTTPGetActionView;

    open spec fn deep_view(&self) -> HTTPGetActionView {
        self.view()
    }
}

#[verifier::ext_equal]
pub struct ProbeView {
    pub http_get: Option<HTTPGetActionView>,
}

#[derive(Debug, Clone, PartialEq, Eq)]
pub struct Probe {
    pub http_get: Option<HTTPGetAction>,
}

impl View for Probe {
    type V = ProbeView;

    open spec fn view(&self) -> ProbeView {
        ProbeView { http_get: self.http_get.deep_view() }
    }
}

impl DeepView for Probe {
    type V = ProbeView;

    open spec fn deep_view(&self) -> ProbeView {
        self.view()
    }
}

#[verifier::ext_equal]
pub struct ContainerPortView {
    pub name: Option<Seq<char>>,
    pub container_port: i32,
    pub protocol: Option<Seq<char>>,
}

#[derive(Debug, Clone, PartialEq, Eq)]
pub struct ContainerPort {
    pub name: Option<String>,
    pub container_port: i32,
    pub protocol: Option<String>,
}

impl View for ContainerPort {
    type V = ContainerPortView;

    open spec fn view(&self) -> ContainerPortView {
        ContainerPortView {
            name: self.name.deep_view(),
            container_port: self.container_port,
            protocol: self.protocol.deep_view(),
        }
    }
}

impl DeepView for ContainerPort {
    type V = ContainerPortView;

    open spec fn deep_view(&self) -> ContainerPortView {
        self.view()
    }
}

#[verifier::ext_equal]
pub struct SecurityContextView {
    pub read_only_root_filesystem: Option<bool>,
}

#[derive(Debug, Clone, PartialEq, Eq)]
pub struct SecurityContext {
    pub read_only_root_filesystem: Option<bool>,
}

impl View for SecurityContext {
    type V = SecurityContextView;

    open spec fn view(&self) -> SecurityContextView {
        SecurityContextView { read_only_root_filesystem: self.read_only_root_filesystem }
    }
}

impl DeepView for SecurityContext {
    type V = SecurityContextView;

    open spec fn deep_view(&self) -> SecurityContextView {
        self.view()
    }
}

#[verifier::ext_equal]
pub struct EnvVarView {
    pub name: Seq<char>,
    pub value: Option<Seq<char>>,
}

#[derive(Debug, Clone, PartialEq, Eq)]
pub struct EnvVar {
    pub name: String,
    pub value: Option<String>,
}

impl View for EnvVar {
    type V = EnvVarView;

    open spec fn view(&self) -> EnvVarView {
        EnvVarView { name: self.name@, value: self.value.deep_view() }
    }
}

impl DeepView for EnvVar {
    type V = EnvVarView;

    open spec fn deep_view(&self) -> EnvVarView {
        self.view()
    }
}

#[verifier::ext_equal]
pub struct VolumeMountView {
    pub name: Seq<char>,
    pub mount_path: Seq<char>,
    pub read_only: Option<bool>,
}

#[derive(Debug, Clone, PartialEq, Eq)]
pub struct VolumeMount {
    pub name: String,
    pub mount_path: String,
    pub read_only: Option<bool>,
}

impl View for VolumeMount {
    type V = VolumeMountView;

    open spec fn view(&self) -> VolumeMountView {
        VolumeMountView {
            name: self.name@,
            mount_path: self.mount_path@,
            read_only: self.read_only,
        }
    }
}

impl DeepView for VolumeMount {
    type V = VolumeMountView;

    open spec fn deep_view(&self) -> VolumeMountView {
        self.view()
    }
}

#[verifier::ext_equal]
pub struct KeyToPathView {
    pub key: Seq<char>,
    pub path: Seq<char>,
}

#[derive(Debug, Clone, PartialEq, Eq)]
pub struct KeyToPath {
    pub key: String,
    pub path: String,
}

impl View for KeyToPath {
    type V = KeyToPathView;

    open spec fn view(&self) -> KeyToPathView {
        KeyToPathView { key: self.key@, path: self.path@ }
    }
}

impl DeepView for KeyToPath {
    type V = KeyToPathView;

    open spec fn deep_view(&self) -> KeyToPathView {
        self.view()
    }
}

#[verifier::ext_equal]
pub struct SecretProjectionView {
    pub name: Option<Seq<char>>,
    pub items: Option<Seq<KeyToPathView>>,
}

#[derive(Debug, Clone, PartialEq, Eq)]
pub struct SecretProjection {
    pub name: Option<String>,
    pub items: Option<Vec<KeyToPath>>,
}

impl View for SecretProjection {
    type V = SecretProjectionView;

    open spec fn view(&self) -> SecretProjectionView {
        SecretProjectionView { name: self.name.deep_view(), items: self.items.deep_view() }
    }
}

impl DeepView for SecretProjection {
    type V = SecretProjectionView;

    open spec fn deep_view(&self) -> SecretProjectionView {
        self.view()
    }
}

#[verifier::ext_equal]
pub struct VolumeProjectionView {
    pub secret: Option<SecretProjectionView>,
}

#[derive(Debug, Clone, PartialEq, Eq)]
pub struct VolumeProjection {
    pub secret: Option<SecretProjection>,
}

impl View for VolumeProjection {
    type V = VolumeProjectionView;

    open spec fn view(&self) -> VolumeProjectionView {
        VolumeProjectionView { secret: self.secret.deep_view() }
    }
}

impl DeepView for VolumeProjection {
    type V = VolumeProjectionView;

    open spec fn deep_view(&self) -> VolumeProjectionView {
        self.view()
    }
}

#[verifier::ext_equal]
pub struct ProjectedVolumeSourceView {
    pub sources: Option<Seq<VolumeProjectionView>>,
}

#[derive(Debug, Clone, PartialEq, Eq)]
pub struct ProjectedVolumeSource {
    pub sources: Option<Vec<VolumeProjection>>,
}

impl View for ProjectedVolumeSource {
    type V = ProjectedVolumeSourceView;

    open spec fn view(&self) -> ProjectedVolumeSourceView {
        ProjectedVolumeSourceView { sources: self.sources.deep_view() }
    }
}

impl DeepView for ProjectedVolumeSource {
    type V = ProjectedVolumeSourceView;

    open spec fn deep_view(&self) -> ProjectedVolumeSourceView {
        self.view()
    }
}

#[verifier::ext_equal]
pub struct VolumeView {
    pub name: Seq<char>,
    pub empty_dir: bool,
    pub projected: Option<ProjectedVolumeSourceView>,
}

/// A pod volume: either an empty dir or a projection of secrets.
#[derive(Debug, Clone, PartialEq, Eq)]
pub struct Volume {
    pub name: String,
    pub empty_dir: bool,
    pub projected: Option<ProjectedVolumeSource>,
}

impl View for Volume {
    type V = VolumeView;

    open spec fn view(&self) -> VolumeView {
        VolumeView {
            name: self.name@,
            empty_dir: self.empty_dir,
            projected: self.projected.deep_view(),
        }
    }
}

impl DeepView for Volume {
    type V = VolumeView;

    open spec fn deep_view(&self) -> VolumeView {
        self.view()
    }
}

#[verifier::ext_equal]
pub struct ResourceRequirementsView {
    pub limits: Option<Seq<(Seq<char>, Seq<char>)>>,
    pub requests: Option<Seq<(Seq<char>, Seq<char>)>>,
}

/// Resource limits and requests, each a map from resource name to a
/// quantity string.
#[derive(Debug, Clone, PartialEq, Eq)]
pub struct ResourceRequirements {
    pub limits: Option<StringMap>,
    pub requests: Option<StringMap>,
}

impl View for ResourceRequirements {
    type V = ResourceRequirementsView;

    open spec fn view(&self) -> ResourceRequirementsView {
        ResourceRequirementsView {
            limits: self.limits.deep_view(),
            requests: self.requests.deep_view(),
        }
    }
}

impl DeepView for ResourceRequirements {
    type V = ResourceRequirementsView;

    open spec fn deep_view(&self) -> ResourceRequirementsView {
        self.view()
    }
}

#[verifier::ext_equal]
pub struct ContainerView {
    pub name: Seq<char>,
    pub image: Option<Seq<char>>,
    pub ports: Option<Seq<ContainerPortView>>,
    pub liveness_probe: Option<ProbeView>,
    pub readiness_probe: Option<ProbeView>,
    pub security_context: Option<SecurityContextView>,
    pub volume_mounts: Option<Seq<VolumeMountView>>,
    pub resources: Option<ResourceRequirementsView>,
    pub env: Option<Seq<EnvVarView>>,
}

#[derive(Debug, Clone, PartialEq, Eq)]
pub struct Container {
    pub name: String,
    pub image: Option<String>,
    pub ports: Option<Vec<ContainerPort>>,
    pub liveness_probe: Option<Probe>,
    pub readiness_probe: Option<Probe>,
    pub security_context: Option<SecurityContext>,
    pub volume_mounts: Option<Vec<VolumeMount>>,
    pub resources: Option<ResourceRequirements>,
    pub env: Option<Vec<EnvVar>>,
}

impl View for Container {
    type V = ContainerView;

    open spec fn view(&self) -> ContainerView {
        ContainerView {
            name: self.name@,
            image: self.image.deep_view(),
            ports: self.ports.deep_view(),
            liveness_probe: self.liveness_probe.deep_view(),
            readiness_probe: self.readiness_probe.deep_view(),
            security_context: self.security_context.deep_view(),
            volume_mounts: self.volume_mounts.deep_view(),
            resources: self.resources.deep_view(),
            env: self.env.deep_view(),
        }
    }
}

impl DeepView for Container {
    type V = ContainerView;

    open spec fn deep_view(&self) -> ContainerView {
        self.view()
    }
}

#[verifier::ext_equal]
pub struct PodSpecView {
    pub containers: Seq<ContainerView>,
    pub volumes: Option<Seq<VolumeView>>,
    pub node_selector: Option<Seq<(Seq<char>, Seq<char>)>>,
}

#[derive(Debug, Clone, PartialEq, Eq)]
pub struct PodSpec {
    pub containers: Vec<Container>,
    pub volumes: Option<Vec<Volume>>,
    pub node_selector: Option<StringMap>,
}

impl View for PodSpec {
    type V = PodSpecView;

    open spec fn view(&self) -> PodSpecView {
        PodSpecView {
            containers: self.containers.deep_view(),
            volumes: self.volumes.deep_view(),
            node_selector: self.node_selector.deep_view(),
        }
    }
}

impl DeepView for PodSpec {
    type V = PodSpecView;

    open spec fn deep_view(&self) -> PodSpecView {
        self.view()
    }
}

#[verifier::ext_equal]
pub struct PodTemplateSpecView {
    pub metadata: Option<ObjectMetaView>,
    pub spec: Option<PodSpecView>,
}

#[derive(Debug, Clone, PartialEq, Eq)]
pub struct PodTemplateSpec {
    pub metadata: Option<ObjectMeta>,
    pub spec: Option<PodSpec>,
}

impl View for PodTemplateSpec {
    type V = PodTemplateSpecView;

    open spec fn view(&self) -> PodTemplateSpecView {
        PodTemplateSpecView { metadata: self.metadata.deep_view(), spec: self.spec.deep_view() }
    }
}

impl DeepView for PodTemplateSpec {
    type V = PodTemplateSpecView;

    open spec fn deep_view(&self) -> PodTemplateSpecView {
        self.view()
    }
}

#[verifier::ext_equal]
pub struct LabelSelectorView {
    pub match_labels: Option<Seq<(Seq<char>, Seq<char>)>>,
}

#[derive(Debug, Clone, PartialEq, Eq)]
pub struct LabelSelector {
    pub match_labels: Option<StringMap>,
}

impl View for LabelSelector {
    type V = LabelSelectorView;

    open spec fn view(&self) -> LabelSelectorView {
        LabelSelectorView { match_labels: self.match_labels.deep_view() }
    }
}

impl DeepView for LabelSelector {
    type V = LabelSelectorView;

    open spec fn deep_view(&self) -> LabelSelectorView {
        self.view()
    }
}

#[verifier::ext_equal]
pub struct RollingUpdateDeploymentView {
    pub max_surge: Option<i32>,
    pub max_unavailable: Option<i32>,
}

/// Rolling-update bounds; the wire type admits percentages too, but the
/// operator only ever writes whole numbers.
#[derive(Debug, Clone, PartialEq, Eq)]
pub struct RollingUpdateDeployment {
    pub max_surge: Option<i32>,
    pub max_unavailable: Option<i32>,
}

impl View for RollingUpdateDeployment {
    type V = RollingUpdateDeploymentView;

    open spec fn view(&self) -> RollingUpdateDeploymentView {
        RollingUpdateDeploymentView {
            max_surge: self.max_surge,
            max_unavailable: self.max_unavailable,
        }
    }
}

impl DeepView for RollingUpdateDeployment {
    type V = RollingUpdateDeploymentView;

    open spec fn deep_view(&self) -> RollingUpdateDeploymentView {
        self.view()
    }
}

#[verifier::ext_equal]
pub struct DeploymentStrategyView {
    pub rolling_update: Option<RollingUpdateDeploymentView>,
}

#[derive(Debug, Clone, PartialEq, Eq)]
pub struct DeploymentStrategy {
    pub rolling_update: Option<RollingUpdateDeployment>,
}

impl View for DeploymentStrategy {
    type V = DeploymentStrategyView;

    open spec fn view(&self) -> DeploymentStrategyView {
        DeploymentStrategyView { rolling_update: self.rolling_update.deep_view() }
    }
}

impl DeepView for DeploymentStrategy {
    type V = DeploymentStrategyView;

    open spec fn deep_view(&self) -> DeploymentStrategyView {
        self.view()
    }
}

#[verifier::ext_equal]
pub struct DeploymentSpecView {
    pub replicas: Option<i32>,
    pub selector: LabelSelectorView,
    pub strategy: Option<DeploymentStrategyView>,
    pub template: PodTemplateSpecView,
}

#[derive(Debug, Clone, PartialEq, Eq)]
pub struct DeploymentSpec {
    pub replicas: Option<i32>,
    pub selector: LabelSelector,
    pub strategy: Option<DeploymentStrategy>,
    pub template: PodTemplateSpec,
}

impl View for DeploymentSpec {
    type V = DeploymentSpecView;

    open spec fn view(&self) -> DeploymentSpecView {
        DeploymentSpecView {
            replicas: self.replicas,
            selector: self.selector@,
            strategy: self.strategy.deep_view(),
            template: self.template@,
        }
    }
}

impl DeepView for DeploymentSpec {
    type V = DeploymentSpecView;

    open spec fn deep_view(&self) -> DeploymentSpecView {
        self.view()
    }
}

#[verifier::ext_equal]
pub struct DeploymentStatusView {
    pub ready_replicas: Option<i32>,
}

#[derive(Debug, Clone, PartialEq, Eq)]
pub struct DeploymentStatus {
    pub ready_replicas: Option<i32>,
}

impl View for DeploymentStatus {
    type V = DeploymentStatusView;

    open spec fn view(&self) -> DeploymentStatusView {
        DeploymentStatusView { ready_replicas: self.ready_replicas }
    }
}

impl DeepView for DeploymentStatus {
    type V = DeploymentStatusView;

    open spec fn deep_view(&self) -> DeploymentStatusView {
        self.view()
    }
}

#[verifier::ext_equal]
pub struct DeploymentView {
    pub metadata: ObjectMetaView,
    pub spec: Option<DeploymentSpecView>,
    pub status: Option<DeploymentStatusView>,
}

/// The workload controller object owned per declaration.
#[derive(Debug, Clone, PartialEq, Eq)]
pub struct Deployment {
    pub metadata: ObjectMeta,
    pub spec: Option<DeploymentSpec>,
    pub status: Option<DeploymentStatus>,
}

impl View for Deployment {
    type V = DeploymentView;

    open spec fn view(&self) -> DeploymentView {
        DeploymentView {
            metadata: self.metadata@,
            spec: self.spec.deep_view(),
            status: self.status.deep_view(),
        }
    }
}

impl DeepView for Deployment {
    type V = DeploymentView;

    open spec fn deep_view(&self) -> DeploymentView {
        self.view()
    }
}

#[verifier::ext_equal]
pub struct ServicePortView {
    pub name: Option<Seq<char>>,
    pub port: i32,
    pub target_port: Option<i32>,
    pub protocol: Option<Seq<char>>,
}

#[derive(Debug, Clone, PartialEq, Eq)]
pub struct ServicePort {
    pub name: Option<String>,
    pub port: i32,
    pub target_port: Option<i32>,
    pub protocol: Option<String>,
}

impl View for ServicePort {
    type V = ServicePortView;

    open spec fn view(&self) -> ServicePortView {
        ServicePortView {
            name: self.name.deep_view(),
            port: self.port,
            target_port: self.target_port,
            protocol: self.protocol.deep_view(),
        }
    }
}

impl DeepView for ServicePort {
    type V = ServicePortView;

    open spec fn deep_view(&self) -> ServicePortView {
        self.view()
    }
}

#[verifier::ext_equal]
pub struct ServiceSpecView {
    pub selector: Option<Seq<(Seq<char>, Seq<char>)>>,
    pub ports: Option<Seq<ServicePortView>>,
}

#[derive(Debug, Clone, PartialEq, Eq)]
pub struct ServiceSpec {
    pub selector: Option<StringMap>,
    pub ports: Option<Vec<ServicePort>>,
}

impl View for ServiceSpec {
    type V = ServiceSpecView;

    open spec fn view(&self) -> ServiceSpecView {
        ServiceSpecView { selector: self.selector.deep_view(), ports: self.ports.deep_view() }
    }
}

impl DeepView for ServiceSpec {
    type V = ServiceSpecView;

    open spec fn deep_view(&self) -> ServiceSpecView {
        self.view()
    }
}

#[verifier::ext_equal]
pub struct ServiceView {
    pub metadata: ObjectMetaView,
    pub spec: Option<ServiceSpecView>,
}

/// The cluster-local network endpoint owned per declaration.
#[derive(Debug, Clone, PartialEq, Eq)]
pub struct Service {
    pub metadata: ObjectMeta,
    pub spec: Option<ServiceSpec>,
}

impl View for Service {
    type V = ServiceView;

    open spec fn view(&self) -> ServiceView {
        ServiceView { metadata: self.metadata@, spec: self.spec.deep_view() }
    }
}

impl DeepView for Service {
    type V = ServiceView;

    open spec fn deep_view(&self) -> ServiceView {
        self.view()
    }
}

} // verus!
