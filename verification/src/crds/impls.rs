//! The projection of a declaration into its owned Deployment and Service,
//! and the drift check against the last-applied annotation.

use vstd::prelude::*;
use vstd::string::*;
use crate::crds::defs::{FunctionIntoDeploymentError, FunctionIntoServiceError,
    FunctionResources, FunctionResourcesView, FunctionSpecIntoDeploymentError, IntoQuantityError,
    OpenFaaSFunction, OpenFaaSFunctionView, OpenFaasFunctionPossibleStatus, OpenFaasFunctionSpec,
    OpenFaasFunctionSpecView, OpenFaasFunctionStatus, OpenFaasFunctionStatusCondition,
    OpenFaasFunctionStatusConditionMessage, OpenFaasFunctionStatusConditionMessageView,
    OpenFaasFunctionStatusConditionStatus, OpenFaasFunctionStatusConditionStatusView,
    OpenFaasFunctionStatusConditionType, OpenFaasFunctionStatusConditionView,
    OpenFaasFunctionStatusView};
use crate::crds::json::json_of_spec;
use crate::k8s::{Container, ContainerPort, ContainerPortView, ContainerView, Deployment,
    DeploymentSpec, DeploymentSpecView, DeploymentStrategy, DeploymentStrategyView,
    DeploymentView, EnvVar, EnvVarView, HTTPGetAction, HTTPGetActionView, KeyToPathView,
    LabelSelector, LabelSelectorView, ObjectMeta, ObjectMetaView, OwnerReference,
    OwnerReferenceView, PodSpec, PodSpecView, PodTemplateSpec, PodTemplateSpecView, Probe,
    ProbeView, ProjectedVolumeSource, ProjectedVolumeSourceView, ResourceRequirements,
    ResourceRequirementsView, RollingUpdateDeployment, RollingUpdateDeploymentView,
    SecretProjection, SecretProjectionView, SecurityContext, SecurityContextView, Service,
    ServicePort, ServicePortView, ServiceSpec, ServiceSpecView, ServiceView, Volume,
    VolumeMount, VolumeMountView, VolumeProjection, VolumeProjectionView, VolumeView,
    KeyToPath};
use crate::quantity::{is_quantity, is_valid_quantity};
use crate::string_map::{sm_extend, sm_get, sm_insert, sm_sorted, str_eq, StringMap};
use crate::utils::{clone_strings, contains_str_upto, trimmed};

verus! {

/// The metadata key that carries the JSON of the most recently applied spec.
pub open spec fn last_applied_annotation_key() -> Seq<char> {
    "openfaasfunctions.operato.rs/last-applied-spec"@
}

/// The one identity label every owned object carries.
pub open spec fn spec_meta_labels(v: OpenFaasFunctionSpecView) -> Seq<(Seq<char>, Seq<char>)> {
    sm_insert(Seq::empty(), "faas_function"@, v.service)
}

/// User labels with the identity label merged on top.
pub open spec fn spec_spec_meta_labels(v: OpenFaasFunctionSpecView) -> Seq<
    (Seq<char>, Seq<char>),
> {
    match v.labels {
        Some(l) => sm_extend(l, spec_meta_labels(v)),
        None => spec_meta_labels(v),
    }
}

/// User annotations with the last-applied annotation merged on top.
pub open spec fn spec_meta_annotations(v: OpenFaasFunctionSpecView) -> Seq<
    (Seq<char>, Seq<char>),
> {
    let base = match v.annotations {
        Some(a) => a,
        None => Seq::empty(),
    };
    sm_insert(base, last_applied_annotation_key(), json_of_spec(v))
}

/// The position of the first `==` at or after `i`.
pub open spec fn find_eqeq_from(c: Seq<char>, i: int) -> Option<int>
    decreases c.len() - i,
{
    if i + 2 > c.len() {
        None
    } else if c[i] == '=' && c[i + 1] == '=' {
        Some(i)
    } else {
        find_eqeq_from(c, i + 1)
    }
}

/// One constraint split at its first `==`, both sides trimmed of
/// surrounding whitespace; `None` when the entry holds no `==`.
pub open spec fn spec_split_constraint(c: Seq<char>) -> Option<(Seq<char>, Seq<char>)> {
    match find_eqeq_from(c, 0) {
        None => None,
        Some(i) => Some((trimmed(c.take(i)), trimmed(c.skip(i + 2)))),
    }
}

/// The key-value pairs of the parseable constraints, in order.
pub open spec fn parsed_constraints(cs: Seq<Seq<char>>) -> Seq<(Seq<char>, Seq<char>)>
    decreases cs.len(),
{
    if cs.len() == 0 {
        Seq::empty()
    } else {
        let rest = parsed_constraints(cs.drop_last());
        match spec_split_constraint(cs.last()) {
            Some(p) => rest.push(p),
            None => rest,
        }
    }
}

/// The pairs with later exact duplicates removed.
pub open spec fn dedup_pairs(ps: Seq<(Seq<char>, Seq<char>)>) -> Seq<(Seq<char>, Seq<char>)>
    decreases ps.len(),
{
    if ps.len() == 0 {
        Seq::empty()
    } else {
        let rest = dedup_pairs(ps.drop_last());
        if ps.drop_last().contains(ps.last()) {
            rest
        } else {
            rest.push(ps.last())
        }
    }
}

/// The map built by inserting the pairs in order; later pairs override.
pub open spec fn pairs_to_map(ps: Seq<(Seq<char>, Seq<char>)>) -> Seq<(Seq<char>, Seq<char>)>
    decreases ps.len(),
{
    if ps.len() == 0 {
        Seq::empty()
    } else {
        sm_insert(pairs_to_map(ps.drop_last()), ps.last().0, ps.last().1)
    }
}

/// The node selector derived from the constraints; `None` when there are
/// none at all.
pub open spec fn spec_node_selector(v: OpenFaasFunctionSpecView) -> Option<
    Seq<(Seq<char>, Seq<char>)>,
> {
    match v.constraints {
        None => None,
        Some(cs) => if cs.len() == 0 {
            None
        } else {
            Some(pairs_to_map(dedup_pairs(parsed_constraints(cs))))
        },
    }
}

/// The declared secrets, or nothing.
pub open spec fn secrets_of(v: OpenFaasFunctionSpecView) -> Seq<Seq<char>> {
    match v.secrets {
        Some(s) => s,
        None => Seq::empty(),
    }
}

/// The items with later duplicates removed.
pub open spec fn dedup_strs(s: Seq<Seq<char>>) -> Seq<Seq<char>>
    decreases s.len(),
{
    if s.len() == 0 {
        Seq::empty()
    } else {
        let rest = dedup_strs(s.drop_last());
        if s.drop_last().contains(s.last()) {
            rest
        } else {
            rest.push(s.last())
        }
    }
}

pub open spec fn spec_should_create_tmp_volume(v: OpenFaasFunctionSpecView) -> bool {
    v.read_only_root_filesystem == Some(true)
}

pub open spec fn spec_should_create_secrets_volume(v: OpenFaasFunctionSpecView) -> bool {
    secrets_of(v).len() > 0
}

pub open spec fn spec_secrets_volume_name(v: OpenFaasFunctionSpecView) -> Seq<char> {
    v.service + "-projected-secrets"@
}

pub open spec fn spec_secrets_mount_path(v: OpenFaasFunctionSpecView) -> Seq<char> {
    match v.secrets_mount_path {
        Some(p) => p,
        None => "/var/openfaas/secrets"@,
    }
}

/// One projection per distinct secret name, each mapping the secret to a
/// path of the same name.
pub open spec fn spec_secrets_projected(v: OpenFaasFunctionSpecView) -> Option<
    ProjectedVolumeSourceView,
> {
    let names = dedup_strs(secrets_of(v));
    if names.len() == 0 {
        None
    } else {
        Some(
            ProjectedVolumeSourceView {
                sources: Some(
                    names.map_values(
                        |s: Seq<char>| VolumeProjectionView {
                            secret: Some(
                                SecretProjectionView {
                                    name: Some(s),
                                    items: Some(seq![KeyToPathView { key: s, path: s }]),
                                },
                            ),
                        },
                    ),
                ),
            },
        )
    }
}

pub open spec fn spec_tmp_volume() -> VolumeView {
    VolumeView { name: "tmp"@, empty_dir: true, projected: None }
}

pub open spec fn spec_secrets_volume(v: OpenFaasFunctionSpecView) -> VolumeView {
    VolumeView {
        name: spec_secrets_volume_name(v),
        empty_dir: false,
        projected: spec_secrets_projected(v),
    }
}

pub open spec fn spec_volumes(v: OpenFaasFunctionSpecView) -> Seq<VolumeView> {
    let tmp: Seq<VolumeView> = if spec_should_create_tmp_volume(v) {
        seq![spec_tmp_volume()]
    } else {
        Seq::empty()
    };
    let secrets: Seq<VolumeView> = if spec_should_create_secrets_volume(v) {
        seq![spec_secrets_volume(v)]
    } else {
        Seq::empty()
    };
    tmp + secrets
}

pub open spec fn spec_tmp_volume_mount() -> VolumeMountView {
    VolumeMountView { name: "tmp"@, mount_path: "/tmp"@, read_only: None }
}

pub open spec fn spec_secrets_volume_mount(v: OpenFaasFunctionSpecView) -> VolumeMountView {
    VolumeMountView {
        name: spec_secrets_volume_name(v),
        mount_path: spec_secrets_mount_path(v),
        read_only: Some(true),
    }
}

pub open spec fn spec_volume_mounts(v: OpenFaasFunctionSpecView) -> Seq<VolumeMountView> {
    let tmp: Seq<VolumeMountView> = if spec_should_create_tmp_volume(v) {
        seq![spec_tmp_volume_mount()]
    } else {
        Seq::empty()
    };
    let secrets: Seq<VolumeMountView> = if spec_should_create_secrets_volume(v) {
        seq![spec_secrets_volume_mount(v)]
    } else {
        Seq::empty()
    };
    tmp + secrets
}

/// The container environment: `fprocess` first, then the declared variables
/// in canonical order.
pub open spec fn spec_env(v: OpenFaasFunctionSpecView) -> Seq<EnvVarView> {
    let head: Seq<EnvVarView> = match v.env_process {
        Some(p) => seq![EnvVarView { name: "fprocess"@, value: Some(p) }],
        None => Seq::empty(),
    };
    let vars: Seq<EnvVarView> = match v.env_vars {
        Some(m) => m.map_values(
            |p: (Seq<char>, Seq<char>)| EnvVarView { name: p.0, value: Some(p.1) },
        ),
        None => Seq::empty(),
    };
    head + vars
}

/// The first offending quantity of one resources block, memory before cpu.
pub open spec fn fr_error(fr: FunctionResourcesView) -> Option<IntoQuantityError> {
    if fr.memory matches Some(m) && !is_quantity(m) {
        Some(IntoQuantityError::Memory)
    } else if fr.cpu matches Some(c) && !is_quantity(c) {
        Some(IntoQuantityError::CPU)
    } else {
        None
    }
}

pub open spec fn fr_error_opt(o: Option<FunctionResourcesView>) -> Option<IntoQuantityError> {
    match o {
        Some(fr) => fr_error(fr),
        None => None,
    }
}

/// The first offending quantity of the whole spec, limits before requests.
pub open spec fn spec_quantity_error(v: OpenFaasFunctionSpecView) -> Option<IntoQuantityError> {
    if fr_error_opt(v.limits) is Some {
        fr_error_opt(v.limits)
    } else {
        fr_error_opt(v.requests)
    }
}

/// One resources block as the map Kubernetes expects, keyed `cpu` and
/// `memory`; `None` when the block names neither.
pub open spec fn fr_to_k8s(fr: FunctionResourcesView) -> Option<Seq<(Seq<char>, Seq<char>)>> {
    let m0: Seq<(Seq<char>, Seq<char>)> = Seq::empty();
    let m1 = match fr.cpu {
        Some(c) => sm_insert(m0, "cpu"@, c),
        None => m0,
    };
    let m2 = match fr.memory {
        Some(m) => sm_insert(m1, "memory"@, m),
        None => m1,
    };
    if m2.len() == 0 {
        None
    } else {
        Some(m2)
    }
}

pub open spec fn spec_limits(v: OpenFaasFunctionSpecView) -> Option<
    Seq<(Seq<char>, Seq<char>)>,
> {
    match v.limits {
        Some(fr) => fr_to_k8s(fr),
        None => None,
    }
}

pub open spec fn spec_requests(v: OpenFaasFunctionSpecView) -> Option<
    Seq<(Seq<char>, Seq<char>)>,
> {
    match v.requests {
        Some(fr) => fr_to_k8s(fr),
        None => None,
    }
}

pub open spec fn spec_probe() -> ProbeView {
    ProbeView {
        http_get: Some(
            HTTPGetActionView { path: Some("/_/health"@), port: 8080, scheme: Some("HTTP"@) },
        ),
    }
}

pub open spec fn spec_http_port() -> ContainerPortView {
    ContainerPortView { name: Some("http"@), container_port: 8080, protocol: Some("TCP"@) }
}

pub open spec fn opt_envs(s: Seq<EnvVarView>) -> Option<Seq<EnvVarView>> {
    if s.len() == 0 {
        None
    } else {
        Some(s)
    }
}

pub open spec fn opt_volumes(s: Seq<VolumeView>) -> Option<Seq<VolumeView>> {
    if s.len() == 0 {
        None
    } else {
        Some(s)
    }
}

pub open spec fn opt_mounts(s: Seq<VolumeMountView>) -> Option<Seq<VolumeMountView>> {
    if s.len() == 0 {
        None
    } else {
        Some(s)
    }
}

/// The single container of the projected pod.
pub open spec fn spec_container(v: OpenFaasFunctionSpecView) -> ContainerView {
    ContainerView {
        name: v.service,
        image: Some(v.image),
        ports: Some(seq![spec_http_port()]),
        liveness_probe: Some(spec_probe()),
        readiness_probe: Some(spec_probe()),
        security_context: Some(
            SecurityContextView { read_only_root_filesystem: v.read_only_root_filesystem },
        ),
        volume_mounts: opt_mounts(spec_volume_mounts(v)),
        resources: Some(
            ResourceRequirementsView { limits: spec_limits(v), requests: spec_requests(v) },
        ),
        env: opt_envs(spec_env(v)),
    }
}

pub open spec fn spec_deployment_meta(
    v: OpenFaasFunctionSpecView,
    functions_namespace: Seq<char>,
) -> ObjectMetaView {
    ObjectMetaView {
        name: Some(v.service),
        namespace: Some(functions_namespace),
        labels: Some(spec_meta_labels(v)),
        annotations: Some(spec_meta_annotations(v)),
        owner_references: None,
    }
}

pub open spec fn spec_template_meta(v: OpenFaasFunctionSpecView) -> ObjectMetaView {
    ObjectMetaView {
        name: Some(v.service),
        namespace: None,
        labels: Some(spec_spec_meta_labels(v)),
        annotations: v.annotations,
        owner_references: None,
    }
}

/// The canonical Deployment a spec projects to, placed in the configured
/// function namespace, before the owner reference is stamped; meaningful
/// when `spec_quantity_error` is `None`.
pub open spec fn spec_deployment(
    v: OpenFaasFunctionSpecView,
    functions_namespace: Seq<char>,
) -> DeploymentView {
    DeploymentView {
        metadata: spec_deployment_meta(v, functions_namespace),
        spec: Some(
            DeploymentSpecView {
                replicas: Some(1),
                selector: LabelSelectorView { match_labels: Some(spec_meta_labels(v)) },
                strategy: Some(
                    DeploymentStrategyView {
                        rolling_update: Some(
                            RollingUpdateDeploymentView {
                                max_surge: Some(1),
                                max_unavailable: Some(0),
                            },
                        ),
                    },
                ),
                template: PodTemplateSpecView {
                    metadata: Some(spec_template_meta(v)),
                    spec: Some(
                        PodSpecView {
                            containers: seq![spec_container(v)],
                            volumes: opt_volumes(spec_volumes(v)),
                            node_selector: spec_node_selector(v),
                        },
                    ),
                },
            },
        ),
        status: None,
    }
}

/// The canonical Service a spec projects to, placed in the configured
/// function namespace.
pub open spec fn spec_service(
    v: OpenFaasFunctionSpecView,
    functions_namespace: Seq<char>,
) -> ServiceView {
    ServiceView {
        metadata: spec_deployment_meta(v, functions_namespace),
        spec: Some(
            ServiceSpecView {
                selector: Some(spec_meta_labels(v)),
                ports: Some(
                    seq![
                        ServicePortView {
                            name: Some("http"@),
                            port: 8080,
                            target_port: Some(8080),
                            protocol: Some("TCP"@),
                        },
                    ],
                ),
            },
        ),
    }
}

/// The controller owner reference of a declaration, present exactly when
/// the declaration carries a name and a uid.
pub open spec fn spec_controller_owner_ref(f: OpenFaaSFunctionView) -> Option<
    OwnerReferenceView,
> {
    match (f.metadata.name, f.metadata.uid) {
        (Some(n), Some(u)) => Some(
            OwnerReferenceView {
                api_version: "operato.rs/v1alpha1"@,
                kind: "OpenFaaSFunction"@,
                name: n,
                uid: u,
                controller: Some(true),
                block_owner_deletion: None,
            },
        ),
        _ => None,
    }
}

pub open spec fn with_owner(m: ObjectMetaView, o: OwnerReferenceView) -> ObjectMetaView {
    ObjectMetaView {
        name: m.name,
        namespace: m.namespace,
        labels: m.labels,
        annotations: m.annotations,
        owner_references: Some(seq![o]),
    }
}

/// The owned Deployment of a declaration; meaningful when the owner
/// reference exists and the quantities are valid.
pub open spec fn spec_owned_deployment(
    f: OpenFaaSFunctionView,
    functions_namespace: Seq<char>,
) -> DeploymentView {
    let d = spec_deployment(f.spec, functions_namespace);
    match spec_controller_owner_ref(f) {
        Some(o) => DeploymentView { metadata: with_owner(d.metadata, o), spec: d.spec, status: d.status },
        None => d,
    }
}

/// The owned Service of a declaration; meaningful when the owner reference
/// exists.
pub open spec fn spec_owned_service(
    f: OpenFaaSFunctionView,
    functions_namespace: Seq<char>,
) -> ServiceView {
    let s = spec_service(f.spec, functions_namespace);
    match spec_controller_owner_ref(f) {
        Some(o) => ServiceView { metadata: with_owner(s.metadata, o), spec: s.spec },
        None => s,
    }
}

/// Whether the live Deployment's last-applied annotation no longer matches
/// the spec's canonical JSON.
pub open spec fn spec_needs_recreation(v: OpenFaasFunctionSpecView, d: DeploymentView) -> bool {
    !(d.metadata.annotations matches Some(anns) && sm_get(anns, last_applied_annotation_key())
        == Some(json_of_spec(v)))
}

/// The mappings a spec carries are in canonical order.
pub open spec fn spec_wf(v: OpenFaasFunctionSpecView) -> bool {
    &&& v.env_vars matches Some(m) ==> sm_sorted(m)
    &&& v.labels matches Some(m) ==> sm_sorted(m)
    &&& v.annotations matches Some(m) ==> sm_sorted(m)
}

fn secret_projection(name: &String) -> (r: VolumeProjection)
    ensures
        r@ == (VolumeProjectionView {
            secret: Some(
                SecretProjectionView {
                    name: Some(name@),
                    items: Some(seq![KeyToPathView { key: name@, path: name@ }]),
                },
            ),
        }),
{
    let mut items: Vec<KeyToPath> = Vec::new();
    items.push(KeyToPath { key: name.clone(), path: name.clone() });
    let r = VolumeProjection {
        secret: Some(SecretProjection { name: Some(name.clone()), items: Some(items) }),
    };
    proof {
        assert(r@ =~~= (VolumeProjectionView {
            secret: Some(
                SecretProjectionView {
                    name: Some(name@),
                    items: Some(seq![KeyToPathView { key: name@, path: name@ }]),
                },
            ),
        }));
    }
    r
}

fn split_constraint(c: &str) -> (r: Option<(String, String)>)
    ensures
        match r {
            Some(p) => spec_split_constraint(c@) == Some((p.0@, p.1@)),
            None => spec_split_constraint(c@) is None,
        },
{
    let n = c.unicode_len();
    let mut i: usize = 0;
    loop
        invariant
            i <= n,
            n == c@.len(),
            find_eqeq_from(c@, 0) == find_eqeq_from(c@, i as int),
        decreases n - i,
    {
        if n < 2 || i > n - 2 {
            return None;
        }
        if c.get_char(i) == '=' && c.get_char(i + 1) == '=' {
            let key_raw = c.substring_char(0, i);
            let val_raw = c.substring_char(i + 2, n);
            let key = crate::utils::trim_whitespace(key_raw);
            let val = crate::utils::trim_whitespace(val_raw);
            proof {
                assert(key_raw@ =~= c@.take(i as int));
                assert(val_raw@ =~= c@.skip(i + 2));
            }
            return Some((key, val));
        }
        i = i + 1;
    }
}

impl FunctionResources {
    /// Validates both quantities and lays them out as Kubernetes resource
    /// entries.
    pub fn try_to_k8s_resources(&self) -> (r: Result<Option<StringMap>, IntoQuantityError>)
        ensures
            match r {
                Ok(o) => fr_error(self@) is None && o.deep_view() == fr_to_k8s(self@) && (
                o matches Some(m) ==> m.wf()),
                Err(e) => fr_error(self@) == Some(e),
            },
    {
        match &self.memory {
            Some(m) => {
                if !is_valid_quantity(m.as_str()) {
                    return Err(IntoQuantityError::Memory);
                }
            },
            None => {},
        }
        match &self.cpu {
            Some(c) => {
                if !is_valid_quantity(c.as_str()) {
                    return Err(IntoQuantityError::CPU);
                }
            },
            None => {},
        }
        let mut map = StringMap::new();
        match &self.cpu {
            Some(c) => {
                map.insert("cpu".to_owned(), c.clone());
            },
            None => {},
        }
        match &self.memory {
            Some(m) => {
                map.insert("memory".to_owned(), m.clone());
            },
            None => {},
        }
        if map.is_empty() {
            Ok(None)
        } else {
            Ok(Some(map))
        }
    }
}

impl OpenFaasFunctionSpec {
    /// The mappings this spec carries are in canonical order.
    pub open spec fn wf(&self) -> bool {
        spec_wf(self@)
    }

    pub fn to_name(&self) -> (r: String)
        ensures
            r@ == self@.service,
    {
        self.service.clone()
    }

    pub fn to_namespace(&self) -> (r: Option<String>)
        ensures
            r.deep_view() == self@.namespace,
    {
        match &self.namespace {
            Some(n) => Some(n.clone()),
            None => None,
        }
    }

    pub fn to_image(&self) -> (r: String)
        ensures
            r@ == self@.image,
    {
        self.image.clone()
    }

    pub fn to_env_process_name(&self) -> (r: String)
        ensures
            r@ == "fprocess"@,
    {
        "fprocess".to_owned()
    }

    pub fn to_meta_labels(&self) -> (r: StringMap)
        ensures
            r@ == spec_meta_labels(self@),
            r.wf(),
    {
        let mut m = StringMap::new();
        m.insert("faas_function".to_owned(), self.to_name());
        m
    }

    pub fn to_spec_meta_labels(&self) -> (r: StringMap)
        requires
            self.wf(),
        ensures
            r@ == spec_spec_meta_labels(self@),
            r.wf(),
    {
        match &self.labels {
            Some(l) => {
                let mut m = l.duplicate();
                let meta = self.to_meta_labels();
                m.extend(&meta);
                m
            },
            None => self.to_meta_labels(),
        }
    }

    pub fn to_service_selector_labels(&self) -> (r: StringMap)
        ensures
            r@ == spec_meta_labels(self@),
            r.wf(),
    {
        self.to_meta_labels()
    }

    pub fn to_annotations(&self) -> (r: Option<StringMap>)
        ensures
            r.deep_view() == self@.annotations,
            r matches Some(m) ==> m.wf() == (self@.annotations matches Some(a) && sm_sorted(a)),
    {
        match &self.annotations {
            Some(a) => Some(a.duplicate()),
            None => None,
        }
    }

    /// User annotations plus the last-applied-spec annotation.
    pub fn to_meta_annotations(&self) -> (r: StringMap)
        requires
            self.wf(),
        ensures
            r@ == spec_meta_annotations(self@),
            r.wf(),
    {
        let mut m = match &self.annotations {
            Some(a) => a.duplicate(),
            None => StringMap::new(),
        };
        m.insert(
            "openfaasfunctions.operato.rs/last-applied-spec".to_owned(),
            self.to_json_string(),
        );
        m
    }

    pub fn should_create_tmp_volume(&self) -> (r: bool)
        ensures
            r == spec_should_create_tmp_volume(self@),
    {
        match self.read_only_root_filesystem {
            Some(b) => b,
            None => false,
        }
    }

    pub fn should_create_secrets_volume(&self) -> (r: bool)
        ensures
            r == spec_should_create_secrets_volume(self@),
    {
        match &self.secrets {
            Some(s) => s.len() > 0,
            None => false,
        }
    }

    /// The declared secret names with later duplicates removed.
    pub fn get_secrets_unique_vec(&self) -> (r: Vec<String>)
        ensures
            r.deep_view() == dedup_strs(secrets_of(self@)),
    {
        match &self.secrets {
            None => {
                let r: Vec<String> = Vec::new();
                proof {
                    assert(r.deep_view() =~= dedup_strs(secrets_of(self@)));
                }
                r
            },
            Some(src) => {
                let n = src.len();
                let mut out: Vec<String> = Vec::new();
                proof {
                    assert(src.deep_view().take(0) =~= Seq::<Seq<char>>::empty());
                    assert(out.deep_view() =~= dedup_strs(src.deep_view().take(0)));
                }
                let mut i: usize = 0;
                while i < n
                    invariant
                        i <= n,
                        n == src@.len(),
                        n == src.deep_view().len(),
                        out.deep_view() == dedup_strs(src.deep_view().take(i as int)),
                    decreases n - i,
                {
                    proof {
                        assert(src.deep_view().take(i + 1).drop_last() =~= src.deep_view().take(
                            i as int,
                        ));
                        assert(src.deep_view().take(i + 1).last() == src.deep_view()[i as int]);
                    }
                    if !contains_str_upto(src, i, src[i].as_str()) {
                        out.push(src[i].clone());
                        proof {
                            assert(out.deep_view() =~= dedup_strs(src.deep_view().take(i + 1)));
                        }
                    }
                    i = i + 1;
                }
                proof {
                    assert(src.deep_view().take(n as int) =~= src.deep_view());
                }
                out
            },
        }
    }

    /// The declared constraints, or an empty list.
    pub fn get_constraints_vec(&self) -> (r: Vec<String>)
        ensures
            r.deep_view() == match self@.constraints {
                Some(cs) => cs,
                None => Seq::<Seq<char>>::empty(),
            },
    {
        match &self.constraints {
            Some(cs) => clone_strings(cs),
            None => {
                let r: Vec<String> = Vec::new();
                proof {
                    assert(r.deep_view() =~= Seq::<Seq<char>>::empty());
                }
                r
            },
        }
    }

    /// Derives the pod node selector from the constraints.
    pub fn to_node_selector(&self) -> (r: Option<StringMap>)
        ensures
            r.deep_view() == spec_node_selector(self@),
            r matches Some(m) ==> m.wf(),
    {
        let constraints = self.get_constraints_vec();
        let n = constraints.len();
        if n == 0 {
            return None;
        }
        let mut parsed: Vec<(String, String)> = Vec::new();
        let mut map = StringMap::new();
        proof {
            assert(constraints.deep_view().take(0) =~= Seq::<Seq<char>>::empty());
            assert(parsed.deep_view() =~= parsed_constraints(constraints.deep_view().take(0)));
            assert(dedup_pairs(parsed.deep_view()) =~= Seq::<(Seq<char>, Seq<char>)>::empty());
        }
        let mut i: usize = 0;
        while i < n
            invariant
                i <= n,
                n == constraints@.len(),
                n == constraints.deep_view().len(),
                map.wf(),
                parsed.deep_view() == parsed_constraints(constraints.deep_view().take(i as int)),
                map@ == pairs_to_map(dedup_pairs(parsed.deep_view())),
            decreases n - i,
        {
            proof {
                assert(constraints.deep_view().take(i + 1).drop_last()
                    =~= constraints.deep_view().take(i as int));
                assert(constraints.deep_view().take(i + 1).last()
                    == constraints.deep_view()[i as int]);
            }
            match split_constraint(constraints[i].as_str()) {
                None => {
                    proof {
                        assert(parsed.deep_view() =~= parsed_constraints(
                            constraints.deep_view().take(i + 1),
                        ));
                    }
                },
                Some((k, v)) => {
                    let ghost old_parsed = parsed.deep_view();
                    let mut dup = false;
                    let m = parsed.len();
                    let mut j: usize = 0;
                    while j < m
                        invariant
                            j <= m,
                            m == parsed@.len(),
                            m == parsed.deep_view().len(),
                            parsed.deep_view() == old_parsed,
                            !dup ==> forall|q: int| 0 <= q < j ==> old_parsed[q] != (k@, v@),
                            dup ==> old_parsed.contains((k@, v@)),
                        decreases m - j,
                    {
                        if str_eq(parsed[j].0.as_str(), k.as_str()) && str_eq(
                            parsed[j].1.as_str(),
                            v.as_str(),
                        ) {
                            proof {
                                assert(old_parsed[j as int] == (k@, v@));
                            }
                            dup = true;
                        }
                        j = j + 1;
                    }
                    proof {
                        if !dup && old_parsed.contains((k@, v@)) {
                            let q = choose|q: int|
                                0 <= q < old_parsed.len() && old_parsed[q] == (k@, v@);
                            assert(old_parsed[q] != (k@, v@));
                        }
                        assert(dup == old_parsed.contains((k@, v@)));
                    }
                    if !dup {
                        map.insert(k.clone(), v.clone());
                    }
                    parsed.push((k, v));
                    proof {
                        assert(parsed.deep_view() =~= old_parsed.push((k@, v@)));
                        assert(parsed.deep_view() =~= parsed_constraints(
                            constraints.deep_view().take(i + 1),
                        ));
                        assert(parsed.deep_view().drop_last() =~= old_parsed);
                        assert(dedup_pairs(parsed.deep_view()) == if old_parsed.contains(
                            (k@, v@),
                        ) {
                            dedup_pairs(old_parsed)
                        } else {
                            dedup_pairs(old_parsed).push((k@, v@))
                        });
                        if !dup {
                            assert(dedup_pairs(parsed.deep_view()).drop_last() =~= dedup_pairs(
                                old_parsed,
                            ));
                            assert(map@ == pairs_to_map(dedup_pairs(parsed.deep_view())));
                        }
                    }
                },
            }
            i = i + 1;
        }
        proof {
            assert(constraints.deep_view().take(n as int) =~= constraints.deep_view());
        }
        Some(map)
    }

    pub fn to_tmp_volume_name(&self) -> (r: String)
        ensures
            r@ == "tmp"@,
    {
        "tmp".to_owned()
    }

    pub fn to_tmp_volume(&self) -> (r: Volume)
        ensures
            r@ == spec_tmp_volume(),
    {
        Volume { name: self.to_tmp_volume_name(), empty_dir: true, projected: None }
    }

    pub fn to_tmp_volume_mount_path(&self) -> (r: String)
        ensures
            r@ == "/tmp"@,
    {
        "/tmp".to_owned()
    }

    pub fn to_tmp_volume_mount(&self) -> (r: VolumeMount)
        ensures
            r@ == spec_tmp_volume_mount(),
    {
        VolumeMount {
            name: self.to_tmp_volume_name(),
            mount_path: self.to_tmp_volume_mount_path(),
            read_only: None,
        }
    }

    pub fn to_secrets_volume_name(&self) -> (r: String)
        ensures
            r@ == spec_secrets_volume_name(self@),
    {
        self.to_name().concat("-projected-secrets")
    }

    /// One projection per distinct secret name.
    pub fn to_secrets_projected_volume_source(&self) -> (r: Option<ProjectedVolumeSource>)
        ensures
            r.deep_view() == spec_secrets_projected(self@),
    {
        let secrets = self.get_secrets_unique_vec();
        let n = secrets.len();
        if n == 0 {
            return None;
        }
        let ghost names = dedup_strs(secrets_of(self@));
        let mut sources: Vec<VolumeProjection> = Vec::new();
        let mut i: usize = 0;
        while i < n
            invariant
                i <= n,
                n == secrets@.len(),
                secrets.deep_view() == names,
                sources.deep_view().len() == i,
                forall|q: int|
                    0 <= q < i ==> sources.deep_view()[q] == (VolumeProjectionView {
                        secret: Some(
                            SecretProjectionView {
                                name: Some(names[q]),
                                items: Some(
                                    seq![KeyToPathView { key: names[q], path: names[q] }],
                                ),
                            },
                        ),
                    }),
            decreases n - i,
        {
            let p = secret_projection(&secrets[i]);
            let ghost pv = p@;
            let ghost sdv = sources.deep_view();
            sources.push(p);
            proof {
                assert(sources.deep_view() =~= sdv.push(pv));
                assert(secrets.deep_view()[i as int] == secrets@[i as int].deep_view());
                assert(sources.deep_view()[i as int] == pv);
            }
            i = i + 1;
        }
        proof {
            assert(sources.deep_view() =~= names.map_values(
                |s: Seq<char>| VolumeProjectionView {
                    secret: Some(
                        SecretProjectionView {
                            name: Some(s),
                            items: Some(seq![KeyToPathView { key: s, path: s }]),
                        },
                    ),
                },
            ));
        }
        Some(ProjectedVolumeSource { sources: Some(sources) })
    }

    pub fn to_secrets_volume(&self) -> (r: Volume)
        ensures
            r@ == spec_secrets_volume(self@),
    {
        Volume {
            name: self.to_secrets_volume_name(),
            empty_dir: false,
            projected: self.to_secrets_projected_volume_source(),
        }
    }

    pub fn to_default_secrets_mount_path(&self) -> (r: String)
        ensures
            r@ == "/var/openfaas/secrets"@,
    {
        "/var/openfaas/secrets".to_owned()
    }

    pub fn to_secrets_mount_path(&self) -> (r: String)
        ensures
            r@ == spec_secrets_mount_path(self@),
    {
        match &self.secrets_mount_path {
            Some(p) => p.clone(),
            None => self.to_default_secrets_mount_path(),
        }
    }

    pub fn to_secrets_volume_mount(&self) -> (r: VolumeMount)
        ensures
            r@ == spec_secrets_volume_mount(self@),
    {
        VolumeMount {
            name: self.to_secrets_volume_name(),
            mount_path: self.to_secrets_mount_path(),
            read_only: Some(true),
        }
    }

    /// All volumes of the projected pod.
    pub fn to_volumes(&self) -> (r: Vec<Volume>)
        ensures
            r.deep_view() == spec_volumes(self@),
    {
        let mut out: Vec<Volume> = Vec::new();
        if self.should_create_tmp_volume() {
            out.push(self.to_tmp_volume());
        }
        if self.should_create_secrets_volume() {
            out.push(self.to_secrets_volume());
        }
        proof {
            assert(out.deep_view() =~= spec_volumes(self@));
        }
        out
    }

    /// All volume mounts of the projected container.
    pub fn to_volume_mounts(&self) -> (r: Vec<VolumeMount>)
        ensures
            r.deep_view() == spec_volume_mounts(self@),
    {
        let mut out: Vec<VolumeMount> = Vec::new();
        if self.should_create_tmp_volume() {
            out.push(self.to_tmp_volume_mount());
        }
        if self.should_create_secrets_volume() {
            out.push(self.to_secrets_volume_mount());
        }
        proof {
            assert(out.deep_view() =~= spec_volume_mounts(self@));
        }
        out
    }

    /// The container environment.
    pub fn to_env(&self) -> (r: Vec<EnvVar>)
        ensures
            r.deep_view() == spec_env(self@),
    {
        let mut out: Vec<EnvVar> = Vec::new();
        match &self.env_process {
            Some(p) => {
                out.push(EnvVar { name: self.to_env_process_name(), value: Some(p.clone()) });
            },
            None => {},
        }
        let ghost head = out.deep_view();
        proof {
            assert(head =~= match self@.env_process {
                Some(p) => seq![EnvVarView { name: "fprocess"@, value: Some(p) }],
                None => Seq::<EnvVarView>::empty(),
            });
        }
        match &self.env_vars {
            Some(m) => {
                let n = m.len();
                let mut i: usize = 0;
                while i < n
                    invariant
                        i <= n,
                        n == m@.len(),
                        out.deep_view().len() == head.len() + i,
                        forall|q: int| 0 <= q < head.len() ==> out.deep_view()[q] == head[q],
                        forall|q: int|
                            0 <= q < i ==> out.deep_view()[head.len() + q] == (EnvVarView {
                                name: m@[q].0,
                                value: Some(m@[q].1),
                            }),
                    decreases n - i,
                {
                    out.push(EnvVar { name: m.key_at(i).clone(), value: Some(m.value_at(i).clone()) });
                    i = i + 1;
                }
                proof {
                    assert(out.deep_view() =~= head + m@.map_values(
                        |p: (Seq<char>, Seq<char>)| EnvVarView { name: p.0, value: Some(p.1) },
                    ));
                }
            },
            None => {
                proof {
                    assert(out.deep_view() =~= head + Seq::<EnvVarView>::empty());
                }
            },
        }
        out
    }

    pub fn try_to_limits(&self) -> (r: Result<Option<StringMap>, IntoQuantityError>)
        ensures
            match r {
                Ok(o) => fr_error_opt(self@.limits) is None && o.deep_view() == spec_limits(self@)
                    && (o matches Some(m) ==> m.wf()),
                Err(e) => fr_error_opt(self@.limits) == Some(e),
            },
    {
        match &self.limits {
            Some(fr) => fr.try_to_k8s_resources(),
            None => Ok(None),
        }
    }

    pub fn try_to_requests(&self) -> (r: Result<Option<StringMap>, IntoQuantityError>)
        ensures
            match r {
                Ok(o) => fr_error_opt(self@.requests) is None && o.deep_view() == spec_requests(
                    self@,
                ) && (o matches Some(m) ==> m.wf()),
                Err(e) => fr_error_opt(self@.requests) == Some(e),
            },
    {
        match &self.requests {
            Some(fr) => fr.try_to_k8s_resources(),
            None => Ok(None),
        }
    }

    fn health_probe(&self) -> (r: Probe)
        ensures
            r@ == spec_probe(),
    {
        Probe {
            http_get: Some(
                HTTPGetAction {
                    path: Some("/_/health".to_owned()),
                    port: 8080,
                    scheme: Some("HTTP".to_owned()),
                },
            ),
        }
    }

    pub fn to_deployment_meta(&self, functions_namespace: &str) -> (r: ObjectMeta)
        requires
            self.wf(),
        ensures
            r@ == spec_deployment_meta(self@, functions_namespace@),
    {
        ObjectMeta {
            name: Some(self.to_name()),
            namespace: Some(functions_namespace.to_owned()),
            labels: Some(self.to_meta_labels()),
            annotations: Some(self.to_meta_annotations()),
            owner_references: None,
        }
    }

    pub fn to_spec_template_meta(&self) -> (r: ObjectMeta)
        requires
            self.wf(),
        ensures
            r@ == spec_template_meta(self@),
    {
        ObjectMeta {
            name: Some(self.to_name()),
            namespace: None,
            labels: Some(self.to_spec_meta_labels()),
            annotations: self.to_annotations(),
            owner_references: None,
        }
    }

    /// Projects the spec into the canonical Deployment, rejecting invalid
    /// quantities.
    pub fn try_to_deployment(&self, functions_namespace: &str) -> (r: Result<
        Deployment,
        FunctionSpecIntoDeploymentError,
    >)
        requires
            self.wf(),
        ensures
            match r {
                Ok(d) => spec_quantity_error(self@) is None && d@ == spec_deployment(
                    self@,
                    functions_namespace@,
                ),
                Err(e) => spec_quantity_error(self@) matches Some(q) && e
                    == FunctionSpecIntoDeploymentError::Quantity(q),
            },
    {
        let limits = match self.try_to_limits() {
            Ok(l) => l,
            Err(e) => {
                return Err(FunctionSpecIntoDeploymentError::Quantity(e));
            },
        };
        let requests = match self.try_to_requests() {
            Ok(l) => l,
            Err(e) => {
                return Err(FunctionSpecIntoDeploymentError::Quantity(e));
            },
        };
        let mounts = self.to_volume_mounts();
        let envs = self.to_env();
        let mut ports: Vec<ContainerPort> = Vec::new();
        ports.push(
            ContainerPort {
                name: Some("http".to_owned()),
                container_port: 8080,
                protocol: Some("TCP".to_owned()),
            },
        );
        let container = Container {
            name: self.to_name(),
            image: Some(self.to_image()),
            ports: Some(ports),
            liveness_probe: Some(self.health_probe()),
            readiness_probe: Some(self.health_probe()),
            security_context: Some(
                SecurityContext { read_only_root_filesystem: self.read_only_root_filesystem },
            ),
            volume_mounts: if mounts.len() == 0 {
                None
            } else {
                Some(mounts)
            },
            resources: Some(ResourceRequirements { limits, requests }),
            env: if envs.len() == 0 {
                None
            } else {
                Some(envs)
            },
        };
        let mut containers: Vec<Container> = Vec::new();
        containers.push(container);
        let volumes = self.to_volumes();
        let pod = PodSpec {
            containers,
            volumes: if volumes.len() == 0 {
                None
            } else {
                Some(volumes)
            },
            node_selector: self.to_node_selector(),
        };
        let template = PodTemplateSpec {
            metadata: Some(self.to_spec_template_meta()),
            spec: Some(pod),
        };
        let dspec = DeploymentSpec {
            replicas: Some(1),
            selector: LabelSelector { match_labels: Some(self.to_meta_labels()) },
            strategy: Some(
                DeploymentStrategy {
                    rolling_update: Some(
                        RollingUpdateDeployment { max_surge: Some(1), max_unavailable: Some(0) },
                    ),
                },
            ),
            template,
        };
        let d = Deployment {
            metadata: self.to_deployment_meta(functions_namespace),
            spec: Some(dspec),
            status: None,
        };
        proof {
            assert(d@ =~~= spec_deployment(self@, functions_namespace@));
        }
        Ok(d)
    }

    /// Projects the spec into the canonical Service.
    pub fn to_service(&self, functions_namespace: &str) -> (r: Service)
        requires
            self.wf(),
        ensures
            r@ == spec_service(self@, functions_namespace@),
    {
        let mut ports: Vec<ServicePort> = Vec::new();
        ports.push(
            ServicePort {
                name: Some("http".to_owned()),
                port: 8080,
                target_port: Some(8080),
                protocol: Some("TCP".to_owned()),
            },
        );
        let s = Service {
            metadata: self.to_deployment_meta(functions_namespace),
            spec: Some(
                ServiceSpec { selector: Some(self.to_service_selector_labels()), ports: Some(ports) },
            ),
        };
        proof {
            assert(s@ =~~= spec_service(self@, functions_namespace@));
        }
        s
    }

    /// Whether the live Deployment must be replaced: its last-applied
    /// annotation is absent, corrupted, or differs from this spec's JSON.
    pub fn deployment_needs_recreation(&self, deployment: &Deployment) -> (r: bool)
        ensures
            r == spec_needs_recreation(self@, deployment@),
    {
        match &deployment.metadata.annotations {
            None => true,
            Some(anns) => match anns.get("openfaasfunctions.operato.rs/last-applied-spec") {
                None => true,
                Some(s) => {
                    let expected = self.to_json_string();
                    !str_eq(s.as_str(), expected.as_str())
                },
            },
        }
    }
}

impl OpenFaaSFunction {
    /// The owner reference stamped on every child, present exactly when the
    /// declaration has a name and a uid.
    pub fn controller_owner_ref(&self) -> (r: Option<OwnerReference>)
        ensures
            r.deep_view() == spec_controller_owner_ref(self@),
    {
        match (&self.metadata.name, &self.metadata.uid) {
            (Some(n), Some(u)) => Some(
                OwnerReference {
                    api_version: "operato.rs/v1alpha1".to_owned(),
                    kind: "OpenFaaSFunction".to_owned(),
                    name: n.clone(),
                    uid: u.clone(),
                    controller: Some(true),
                    block_owner_deletion: None,
                },
            ),
            _ => None,
        }
    }

    /// The owned Deployment for this declaration, owner reference included.
    pub fn try_to_deployment(&self, functions_namespace: &str) -> (r: Result<
        Deployment,
        FunctionIntoDeploymentError,
    >)
        requires
            self.spec.wf(),
        ensures
            match r {
                Ok(d) => spec_controller_owner_ref(self@) is Some && spec_quantity_error(
                    self@.spec,
                ) is None && d@ == spec_owned_deployment(self@, functions_namespace@),
                Err(e) => match e {
                    FunctionIntoDeploymentError::OwnerReference => spec_controller_owner_ref(
                        self@,
                    ) is None,
                    FunctionIntoDeploymentError::FunctionSpec(fe) => spec_controller_owner_ref(
                        self@,
                    ) is Some && (fe matches FunctionSpecIntoDeploymentError::Quantity(q)
                        && spec_quantity_error(self@.spec) == Some(q)),
                },
            },
    {
        let oref = match self.controller_owner_ref() {
            Some(o) => o,
            None => {
                return Err(FunctionIntoDeploymentError::OwnerReference);
            },
        };
        let mut dep = match self.spec.try_to_deployment(functions_namespace) {
            Ok(d) => d,
            Err(e) => {
                return Err(FunctionIntoDeploymentError::FunctionSpec(e));
            },
        };
        let mut orefs: Vec<OwnerReference> = Vec::new();
        orefs.push(oref);
        dep.metadata.owner_references = Some(orefs);
        proof {
            assert(dep@.metadata =~~= spec_owned_deployment(self@, functions_namespace@).metadata);
            assert(dep@ =~~= spec_owned_deployment(self@, functions_namespace@));
        }
        Ok(dep)
    }

    /// The owned Service for this declaration, owner reference included.
    pub fn try_to_service(&self, functions_namespace: &str) -> (r: Result<
        Service,
        FunctionIntoServiceError,
    >)
        requires
            self.spec.wf(),
        ensures
            match r {
                Ok(s) => spec_controller_owner_ref(self@) is Some && s@ == spec_owned_service(
                    self@,
                    functions_namespace@,
                ),
                Err(e) => e == FunctionIntoServiceError::OwnerReference
                    && spec_controller_owner_ref(self@) is None,
            },
    {
        let oref = match self.controller_owner_ref() {
            Some(o) => o,
            None => {
                return Err(FunctionIntoServiceError::OwnerReference);
            },
        };
        let mut svc = self.spec.to_service(functions_namespace);
        let mut orefs: Vec<OwnerReference> = Vec::new();
        orefs.push(oref);
        svc.metadata.owner_references = Some(orefs);
        proof {
            assert(svc@.metadata =~~= spec_owned_service(self@, functions_namespace@).metadata);
            assert(svc@ =~~= spec_owned_service(self@, functions_namespace@));
        }
        Ok(svc)
    }
}

/// The reason of the first condition, if the status carries one.
pub open spec fn spec_possible_status(sv: OpenFaasFunctionStatusView) -> Option<
    OpenFaasFunctionPossibleStatus,
> {
    if sv.conditions.len() == 0 {
        None
    } else {
        Some(sv.conditions[0].reason)
    }
}

/// `True` exactly for the healthy reason.
pub open spec fn spec_condition_status(reason: OpenFaasFunctionPossibleStatus)
    -> OpenFaasFunctionStatusConditionStatusView {
    OpenFaasFunctionStatusConditionStatusView {
        status: if reason == OpenFaasFunctionPossibleStatus::Okay {
            "True"@
        } else {
            "False"@
        },
    }
}

/// The canonical message for each reason.
pub open spec fn spec_condition_message(reason: OpenFaasFunctionPossibleStatus)
    -> OpenFaasFunctionStatusConditionMessageView {
    OpenFaasFunctionStatusConditionMessageView {
        message: match reason {
            OpenFaasFunctionPossibleStatus::Okay => None,
            OpenFaasFunctionPossibleStatus::InvalidCRDNamespace => Some(
                "The CRD's namespace does not match the functions namespace"@,
            ),
            OpenFaasFunctionPossibleStatus::InvalidFunctionNamespace => Some(
                "The function's namespace does not match the functions namespace"@,
            ),
            OpenFaasFunctionPossibleStatus::CPUQuantity => Some(
                "A function's cpu quantity is invalid"@,
            ),
            OpenFaasFunctionPossibleStatus::MemoryQuantity => Some(
                "A function's memory quantity is invalid"@,
            ),
            OpenFaasFunctionPossibleStatus::DeploymentAlreadyExists => Some(
                "The function's deployment already deployed by third party"@,
            ),
            OpenFaasFunctionPossibleStatus::DeploymentNotReady => Some(
                "The function's deployment is not ready"@,
            ),
            OpenFaasFunctionPossibleStatus::ServiceAlreadyExists => Some(
                "The function's service already deployed by third party"@,
            ),
            OpenFaasFunctionPossibleStatus::SecretsNotFound => Some(
                "The given secrets to mount do not exist"@,
            ),
        },
    }
}

/// The full Ready condition for a reason, stamped with the given time.
pub open spec fn spec_condition_for(
    reason: OpenFaasFunctionPossibleStatus,
    time: Seq<char>,
) -> OpenFaasFunctionStatusConditionView {
    OpenFaasFunctionStatusConditionView {
        type_: OpenFaasFunctionStatusConditionType::Ready,
        status: spec_condition_status(reason),
        message: spec_condition_message(reason),
        reason,
        last_update_time: Some(time),
    }
}

/// The status written for a reason: a single Ready condition.
pub open spec fn spec_status_for(
    reason: OpenFaasFunctionPossibleStatus,
    time: Seq<char>,
) -> OpenFaasFunctionStatusView {
    OpenFaasFunctionStatusView { conditions: seq![spec_condition_for(reason, time)] }
}

impl OpenFaasFunctionStatus {
    /// The reason tag this status carries, if any.
    pub fn possible_status(&self) -> (r: Option<OpenFaasFunctionPossibleStatus>)
        ensures
            r == spec_possible_status(self@),
    {
        if self.conditions.len() == 0 {
            None
        } else {
            Some(self.conditions[0].reason)
        }
    }

    /// Builds the status for a reason, stamped with the given time.
    pub fn from_reason(reason: OpenFaasFunctionPossibleStatus, time: String) -> (r:
        OpenFaasFunctionStatus)
        ensures
            r@ == spec_status_for(reason, time@),
    {
        let status = OpenFaasFunctionStatusConditionStatus {
            status: if let OpenFaasFunctionPossibleStatus::Okay = reason {
                "True".to_owned()
            } else {
                "False".to_owned()
            },
        };
        let message = OpenFaasFunctionStatusConditionMessage {
            message: match reason {
                OpenFaasFunctionPossibleStatus::Okay => None,
                OpenFaasFunctionPossibleStatus::InvalidCRDNamespace => Some(
                    "The CRD's namespace does not match the functions namespace".to_owned(),
                ),
                OpenFaasFunctionPossibleStatus::InvalidFunctionNamespace => Some(
                    "The function's namespace does not match the functions namespace".to_owned(),
                ),
                OpenFaasFunctionPossibleStatus::CPUQuantity => Some(
                    "A function's cpu quantity is invalid".to_owned(),
                ),
                OpenFaasFunctionPossibleStatus::MemoryQuantity => Some(
                    "A function's memory quantity is invalid".to_owned(),
                ),
                OpenFaasFunctionPossibleStatus::DeploymentAlreadyExists => Some(
                    "The function's deployment already deployed by third party".to_owned(),
                ),
                OpenFaasFunctionPossibleStatus::DeploymentNotReady => Some(
                    "The function's deployment is not ready".to_owned(),
                ),
                OpenFaasFunctionPossibleStatus::ServiceAlreadyExists => Some(
                    "The function's service already deployed by third party".to_owned(),
                ),
                OpenFaasFunctionPossibleStatus::SecretsNotFound => Some(
                    "The given secrets to mount do not exist".to_owned(),
                ),
            },
        };
        let condition = OpenFaasFunctionStatusCondition {
            type_: OpenFaasFunctionStatusConditionType::Ready,
            status,
            message,
            reason,
            last_update_time: Some(time),
        };
        let mut conditions: Vec<OpenFaasFunctionStatusCondition> = Vec::new();
        conditions.push(condition);
        let r = OpenFaasFunctionStatus { conditions };
        proof {
            assert(r@.conditions =~~= spec_status_for(reason, time@).conditions);
        }
        r
    }
}

} // verus!
