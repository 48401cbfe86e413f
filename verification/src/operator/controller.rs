//! The per-resource reconcile state machine.
//!
//! Each reconcile pass is a sequence of bounded decisions: the machine is
//! handed the declaration and the response to its previous request, and
//! returns the next request to perform, or the outcome of the pass. The I/O
//! shell performs each request against the API server and feeds the result
//! back; every decision in between is made here and verified against the
//! specification functions below.

use vstd::prelude::*;
use crate::crds::defs::{FunctionIntoDeploymentError, FunctionIntoServiceError, IntoQuantityError,
    OpenFaaSFunction, OpenFaaSFunctionView, OpenFaasFunctionPossibleStatus,
    FunctionSpecIntoDeploymentError};
use crate::crds::impls::{dedup_strs, secrets_of, spec_needs_recreation, spec_owned_deployment,
    spec_owned_service, spec_controller_owner_ref, spec_quantity_error};
use crate::k8s::{Deployment, DeploymentView, ObjectMeta, ObjectMetaView, OwnerReference,
    OwnerReferenceView, Service, ServiceView};
use crate::string_map::str_eq;
use crate::utils::{collect_missing_keys_vec, missing_items};

verus! {

/// The OpenFaaS functions operator update strategy.
#[derive(Debug, Clone, Copy, PartialEq, Eq, Structural, Default)]
pub enum UpdateStrategy {
    /// Resources are updated only when changes occur in the declaration.
    #[default]
    OneWay,
    /// The desired state of the declaration always matches the state of the
    /// resources; reserved, not implemented by this engine.
    Strategic,
}

impl UpdateStrategy {
    /// The kebab-case form used on the command line.
    pub fn as_kebab_str(&self) -> (r: &'static str)
        ensures
            *self is OneWay ==> r@ == "one-way"@,
            *self is Strategic ==> r@ == "strategic"@,
    {
        match self {
            UpdateStrategy::OneWay => "one-way",
            UpdateStrategy::Strategic => "strategic",
        }
    }
}

#[verifier::ext_equal]
pub struct OperatorConfigView {
    pub functions_namespace: Seq<char>,
    pub update_strategy: UpdateStrategy,
}

/// What the operator was configured with.
#[derive(Debug, Clone, PartialEq, Eq)]
pub struct OperatorConfig {
    pub functions_namespace: String,
    pub update_strategy: UpdateStrategy,
}

impl View for OperatorConfig {
    type V = OperatorConfigView;

    open spec fn view(&self) -> OperatorConfigView {
        OperatorConfigView {
            functions_namespace: self.functions_namespace@,
            update_strategy: self.update_strategy,
        }
    }
}

#[verifier::ext_equal]
pub enum RequestView {
    GetStatus,
    ReplaceStatus(OpenFaasFunctionPossibleStatus),
    GetDeployment(Seq<char>),
    ListDeployments,
    ListSecrets,
    CreateDeployment(DeploymentView),
    ReplaceDeployment(Seq<char>, DeploymentView),
    DeleteDeployment(Seq<char>),
    GetService(Seq<char>),
    CreateService(ServiceView),
    ListServices,
    DeleteService(Seq<char>),
}

/// One API-server call the shell performs for the machine.
#[derive(Debug, Clone, PartialEq, Eq)]
pub enum Request {
    /// Read the declaration's current status subresource.
    GetStatus,
    /// Replace the declaration's status with a condition for this reason.
    ReplaceStatus(OpenFaasFunctionPossibleStatus),
    /// Fetch the deployment of this name, if it exists.
    GetDeployment(String),
    /// List the deployments of the function namespace.
    ListDeployments,
    /// List the names of the secrets of the function namespace.
    ListSecrets,
    /// Create this deployment.
    CreateDeployment(Deployment),
    /// Replace the deployment of this name with this one.
    ReplaceDeployment(String, Deployment),
    /// Delete the deployment of this name.
    DeleteDeployment(String),
    /// Fetch the service of this name, if it exists.
    GetService(String),
    /// Create this service.
    CreateService(Service),
    /// List the services of the function namespace.
    ListServices,
    /// Delete the service of this name.
    DeleteService(String),
}

impl View for Request {
    type V = RequestView;

    open spec fn view(&self) -> RequestView {
        match self {
            Request::GetStatus => RequestView::GetStatus,
            Request::ReplaceStatus(r) => RequestView::ReplaceStatus(*r),
            Request::GetDeployment(n) => RequestView::GetDeployment(n@),
            Request::ListDeployments => RequestView::ListDeployments,
            Request::ListSecrets => RequestView::ListSecrets,
            Request::CreateDeployment(d) => RequestView::CreateDeployment(d@),
            Request::ReplaceDeployment(n, d) => RequestView::ReplaceDeployment(n@, d@),
            Request::DeleteDeployment(n) => RequestView::DeleteDeployment(n@),
            Request::GetService(n) => RequestView::GetService(n@),
            Request::CreateService(s) => RequestView::CreateService(s@),
            Request::ListServices => RequestView::ListServices,
            Request::DeleteService(n) => RequestView::DeleteService(n@),
        }
    }
}

#[verifier::ext_equal]
pub enum ResponseView {
    Status(Option<OpenFaasFunctionPossibleStatus>),
    Updated,
    Deployment(Option<DeploymentView>),
    Deployments(Seq<DeploymentView>),
    SecretNames(Seq<Seq<char>>),
    Service(Option<ServiceView>),
    Services(Seq<ServiceView>),
    Failed,
}

/// What the shell observed when performing the previous request.
#[derive(Debug, Clone, PartialEq, Eq)]
pub enum Response {
    /// The reason of the declaration's current Ready condition, if any.
    Status(Option<OpenFaasFunctionPossibleStatus>),
    /// A write (status, create, replace, delete) went through.
    Updated,
    /// The deployment asked for, or nothing.
    Deployment(Option<Deployment>),
    /// Every deployment of the function namespace.
    Deployments(Vec<Deployment>),
    /// The names of every secret of the function namespace.
    SecretNames(Vec<String>),
    /// The service asked for, or nothing.
    Service(Option<Service>),
    /// Every service of the function namespace.
    Services(Vec<Service>),
    /// The call failed.
    Failed,
}

impl View for Response {
    type V = ResponseView;

    open spec fn view(&self) -> ResponseView {
        match self {
            Response::Status(r) => ResponseView::Status(*r),
            Response::Updated => ResponseView::Updated,
            Response::Deployment(d) => ResponseView::Deployment(d.deep_view()),
            Response::Deployments(l) => ResponseView::Deployments(l.deep_view()),
            Response::SecretNames(l) => ResponseView::SecretNames(l.deep_view()),
            Response::Service(s) => ResponseView::Service(s.deep_view()),
            Response::Services(l) => ResponseView::Services(l.deep_view()),
            Response::Failed => ResponseView::Failed,
        }
    }
}

/// How a reconcile pass ends.
#[derive(Debug, Clone, Copy, PartialEq, Eq, Structural)]
pub enum Outcome {
    /// The pass is complete or recorded its finding; wait for the next event.
    AwaitChange,
    /// An unclassified error occurred; retry after the fixed period.
    Requeue,
}

#[verifier::ext_equal]
pub enum ReconcileStepView {
    CheckDeployment,
    GettingStatusFor { target: OpenFaasFunctionPossibleStatus },
    ReplacingStatusFor { target: OpenFaasFunctionPossibleStatus },
    CheckSecrets { replace: bool },
    AfterWriteDeployment,
    SweepDeployments,
    DeletingDeployments { pending: Seq<Seq<char>> },
    CheckService,
    AfterCreateService,
    SweepServices,
    DeletingServices { pending: Seq<Seq<char>> },
}

/// Where in a pass the machine stands.
#[derive(Debug, Clone, PartialEq, Eq)]
pub enum ReconcileStep {
    /// Waiting for the deployment named after the declaration.
    CheckDeployment,
    /// Waiting for the current status before setting it to `target`.
    GettingStatusFor { target: OpenFaasFunctionPossibleStatus },
    /// Waiting for the status write for `target` to land.
    ReplacingStatusFor { target: OpenFaasFunctionPossibleStatus },
    /// Waiting for the secret names before creating or replacing.
    CheckSecrets { replace: bool },
    /// Waiting for a deployment create or replace to land.
    AfterWriteDeployment,
    /// Waiting for the deployment list of the sweep.
    SweepDeployments,
    /// Deleting stale owned deployments, one at a time.
    DeletingDeployments { pending: Vec<String> },
    /// Waiting for the service named after the declaration.
    CheckService,
    /// Waiting for the service create to land.
    AfterCreateService,
    /// Waiting for the service list of the sweep.
    SweepServices,
    /// Deleting stale owned services, one at a time.
    DeletingServices { pending: Vec<String> },
}

impl View for ReconcileStep {
    type V = ReconcileStepView;

    open spec fn view(&self) -> ReconcileStepView {
        match self {
            ReconcileStep::CheckDeployment => ReconcileStepView::CheckDeployment,
            ReconcileStep::GettingStatusFor { target } => ReconcileStepView::GettingStatusFor {
                target: *target,
            },
            ReconcileStep::ReplacingStatusFor { target } =>
                ReconcileStepView::ReplacingStatusFor { target: *target },
            ReconcileStep::CheckSecrets { replace } => ReconcileStepView::CheckSecrets {
                replace: *replace,
            },
            ReconcileStep::AfterWriteDeployment => ReconcileStepView::AfterWriteDeployment,
            ReconcileStep::SweepDeployments => ReconcileStepView::SweepDeployments,
            ReconcileStep::DeletingDeployments { pending } => ReconcileStepView::DeletingDeployments {
                pending: pending.deep_view(),
            },
            ReconcileStep::CheckService => ReconcileStepView::CheckService,
            ReconcileStep::AfterCreateService => ReconcileStepView::AfterCreateService,
            ReconcileStep::SweepServices => ReconcileStepView::SweepServices,
            ReconcileStep::DeletingServices { pending } => ReconcileStepView::DeletingServices {
                pending: pending.deep_view(),
            },
        }
    }
}

#[verifier::ext_equal]
pub enum ReconcileActionView {
    Perform(RequestView),
    Done(Outcome),
}

/// The machine's answer: either a request to perform, or the end of the pass.
#[derive(Debug, Clone, PartialEq, Eq)]
pub enum ReconcileAction {
    Perform(Request),
    Done(Outcome),
}

impl View for ReconcileAction {
    type V = ReconcileActionView;

    open spec fn view(&self) -> ReconcileActionView {
        match self {
            ReconcileAction::Perform(r) => ReconcileActionView::Perform(r@),
            ReconcileAction::Done(o) => ReconcileActionView::Done(*o),
        }
    }
}

/// Whether a child's metadata carries this owner reference.
pub open spec fn spec_is_owned(m: ObjectMetaView, o: OwnerReferenceView) -> bool {
    m.owner_references matches Some(rs) && rs.contains(o)
}

/// Whether the deployment reports at least one ready replica.
pub open spec fn spec_is_ready(d: DeploymentView) -> bool {
    d.status matches Some(st) && st.ready_replicas matches Some(r) && r > 0
}

/// The name a listed child goes by; the empty string when it has none.
pub open spec fn spec_name_of(m: ObjectMetaView) -> Seq<char> {
    match m.name {
        Some(n) => n,
        None => Seq::empty(),
    }
}

/// The names of the listed deployments that carry the owner reference but no
/// longer go by the declared name, in list order.
pub open spec fn spec_deployment_sweep_targets(
    list: Seq<DeploymentView>,
    o: OwnerReferenceView,
    current: Seq<char>,
) -> Seq<Seq<char>>
    decreases list.len(),
{
    if list.len() == 0 {
        Seq::empty()
    } else {
        let rest = spec_deployment_sweep_targets(list.drop_last(), o, current);
        let m = list.last().metadata;
        if spec_name_of(m) != current && spec_is_owned(m, o) {
            rest.push(spec_name_of(m))
        } else {
            rest
        }
    }
}

/// The names of the listed services that carry the owner reference but no
/// longer go by the declared name, in list order.
pub open spec fn spec_service_sweep_targets(
    list: Seq<ServiceView>,
    o: OwnerReferenceView,
    current: Seq<char>,
) -> Seq<Seq<char>>
    decreases list.len(),
{
    if list.len() == 0 {
        Seq::empty()
    } else {
        let rest = spec_service_sweep_targets(list.drop_last(), o, current);
        let m = list.last().metadata;
        if spec_name_of(m) != current && spec_is_owned(m, o) {
            rest.push(spec_name_of(m))
        } else {
            rest
        }
    }
}

/// The status reason for an offending quantity.
pub open spec fn spec_reason_for_quantity(q: IntoQuantityError) -> OpenFaasFunctionPossibleStatus {
    match q {
        IntoQuantityError::CPU => OpenFaasFunctionPossibleStatus::CPUQuantity,
        IntoQuantityError::Memory => OpenFaasFunctionPossibleStatus::MemoryQuantity,
    }
}

/// The first decision of a pass: validate the namespaces, then ask for the
/// deployment.
pub open spec fn spec_reconcile_start(cfg: OperatorConfigView, f: OpenFaaSFunctionView) -> (
    ReconcileStepView,
    ReconcileActionView,
) {
    match f.metadata.namespace {
        None => (
            ReconcileStepView::CheckDeployment,
            ReconcileActionView::Done(Outcome::Requeue),
        ),
        Some(ns) => if ns != cfg.functions_namespace {
            (
                ReconcileStepView::GettingStatusFor {
                    target: OpenFaasFunctionPossibleStatus::InvalidCRDNamespace,
                },
                ReconcileActionView::Perform(RequestView::GetStatus),
            )
        } else if f.spec.namespace matches Some(fns) && fns != cfg.functions_namespace {
            (
                ReconcileStepView::GettingStatusFor {
                    target: OpenFaasFunctionPossibleStatus::InvalidFunctionNamespace,
                },
                ReconcileActionView::Perform(RequestView::GetStatus),
            )
        } else {
            (
                ReconcileStepView::CheckDeployment,
                ReconcileActionView::Perform(RequestView::GetDeployment(f.spec.service)),
            )
        },
    }
}

/// Every decision after the first: one observed response in, one request or
/// outcome out.
pub open spec fn spec_reconcile_step(
    cfg: OperatorConfigView,
    f: OpenFaaSFunctionView,
    step: ReconcileStepView,
    resp: ResponseView,
) -> (ReconcileStepView, ReconcileActionView) {
    if resp is Failed {
        (step, ReconcileActionView::Done(Outcome::Requeue))
    } else {
        match (step, resp) {
            (
                ReconcileStepView::GettingStatusFor { target },
                ResponseView::Status(current),
            ) => {
                if current == Some(target) {
                    (step, ReconcileActionView::Done(Outcome::AwaitChange))
                } else {
                    (
                        ReconcileStepView::ReplacingStatusFor { target },
                        ReconcileActionView::Perform(RequestView::ReplaceStatus(target)),
                    )
                }
            },
            (ReconcileStepView::ReplacingStatusFor { target }, ResponseView::Updated) => (
                step,
                ReconcileActionView::Done(Outcome::AwaitChange),
            ),
            (ReconcileStepView::CheckDeployment, ResponseView::Deployment(found)) => {
                match spec_controller_owner_ref(f) {
                    None => (step, ReconcileActionView::Done(Outcome::Requeue)),
                    Some(oref) => match found {
                        Some(dep) => {
                            if !spec_is_owned(dep.metadata, oref) {
                                (
                                    ReconcileStepView::GettingStatusFor {
                                        target:
                                            OpenFaasFunctionPossibleStatus::DeploymentAlreadyExists,
                                    },
                                    ReconcileActionView::Perform(RequestView::GetStatus),
                                )
                            } else if !spec_is_ready(dep) {
                                (
                                    ReconcileStepView::GettingStatusFor {
                                        target: OpenFaasFunctionPossibleStatus::DeploymentNotReady,
                                    },
                                    ReconcileActionView::Perform(RequestView::GetStatus),
                                )
                            } else if cfg.update_strategy is OneWay && spec_needs_recreation(
                                f.spec,
                                dep,
                            ) {
                                (
                                    ReconcileStepView::CheckSecrets { replace: true },
                                    ReconcileActionView::Perform(RequestView::ListSecrets),
                                )
                            } else {
                                (
                                    ReconcileStepView::SweepDeployments,
                                    ReconcileActionView::Perform(RequestView::ListDeployments),
                                )
                            }
                        },
                        None => (
                            ReconcileStepView::CheckSecrets { replace: false },
                            ReconcileActionView::Perform(RequestView::ListSecrets),
                        ),
                    },
                }
            },
            (ReconcileStepView::CheckSecrets { replace }, ResponseView::SecretNames(names)) => {
                let missing = missing_items(dedup_strs(secrets_of(f.spec)), names);
                if missing.len() > 0 {
                    (
                        ReconcileStepView::GettingStatusFor {
                            target: OpenFaasFunctionPossibleStatus::SecretsNotFound,
                        },
                        ReconcileActionView::Perform(RequestView::GetStatus),
                    )
                } else if spec_controller_owner_ref(f) is None {
                    (step, ReconcileActionView::Done(Outcome::Requeue))
                } else {
                    match spec_quantity_error(f.spec) {
                        Some(q) => (
                            ReconcileStepView::GettingStatusFor {
                                target: spec_reason_for_quantity(q),
                            },
                            ReconcileActionView::Perform(RequestView::GetStatus),
                        ),
                        None => if replace {
                            (
                                ReconcileStepView::AfterWriteDeployment,
                                ReconcileActionView::Perform(
                                    RequestView::ReplaceDeployment(
                                        f.spec.service,
                                        spec_owned_deployment(f, cfg.functions_namespace),
                                    ),
                                ),
                            )
                        } else {
                            (
                                ReconcileStepView::AfterWriteDeployment,
                                ReconcileActionView::Perform(
                                    RequestView::CreateDeployment(spec_owned_deployment(f, cfg.functions_namespace)),
                                ),
                            )
                        },
                    }
                }
            },
            (ReconcileStepView::AfterWriteDeployment, ResponseView::Updated) => (
                step,
                ReconcileActionView::Done(Outcome::AwaitChange),
            ),
            (ReconcileStepView::SweepDeployments, ResponseView::Deployments(list)) => {
                match spec_controller_owner_ref(f) {
                    None => (step, ReconcileActionView::Done(Outcome::Requeue)),
                    Some(oref) => {
                        let targets = spec_deployment_sweep_targets(list, oref, f.spec.service);
                        if targets.len() == 0 {
                            (
                                ReconcileStepView::CheckService,
                                ReconcileActionView::Perform(
                                    RequestView::GetService(f.spec.service),
                                ),
                            )
                        } else {
                            (
                                ReconcileStepView::DeletingDeployments {
                                    pending: targets.drop_first(),
                                },
                                ReconcileActionView::Perform(
                                    RequestView::DeleteDeployment(targets[0]),
                                ),
                            )
                        }
                    },
                }
            },
            (
                ReconcileStepView::DeletingDeployments { pending },
                ResponseView::Updated,
            ) => {
                if pending.len() == 0 {
                    (
                        ReconcileStepView::CheckService,
                        ReconcileActionView::Perform(RequestView::GetService(f.spec.service)),
                    )
                } else {
                    (
                        ReconcileStepView::DeletingDeployments { pending: pending.drop_first() },
                        ReconcileActionView::Perform(RequestView::DeleteDeployment(pending[0])),
                    )
                }
            },
            (ReconcileStepView::CheckService, ResponseView::Service(found)) => {
                match spec_controller_owner_ref(f) {
                    None => (step, ReconcileActionView::Done(Outcome::Requeue)),
                    Some(oref) => match found {
                        Some(svc) => {
                            if !spec_is_owned(svc.metadata, oref) {
                                (
                                    ReconcileStepView::GettingStatusFor {
                                        target:
                                            OpenFaasFunctionPossibleStatus::ServiceAlreadyExists,
                                    },
                                    ReconcileActionView::Perform(RequestView::GetStatus),
                                )
                            } else {
                                (
                                    ReconcileStepView::SweepServices,
                                    ReconcileActionView::Perform(RequestView::ListServices),
                                )
                            }
                        },
                        None => (
                            ReconcileStepView::AfterCreateService,
                            ReconcileActionView::Perform(
                                RequestView::CreateService(spec_owned_service(f, cfg.functions_namespace)),
                            ),
                        ),
                    },
                }
            },
            (ReconcileStepView::AfterCreateService, ResponseView::Updated) => (
                ReconcileStepView::SweepServices,
                ReconcileActionView::Perform(RequestView::ListServices),
            ),
            (ReconcileStepView::SweepServices, ResponseView::Services(list)) => {
                match spec_controller_owner_ref(f) {
                    None => (step, ReconcileActionView::Done(Outcome::Requeue)),
                    Some(oref) => {
                        let targets = spec_service_sweep_targets(list, oref, f.spec.service);
                        if targets.len() == 0 {
                            (
                                ReconcileStepView::GettingStatusFor {
                                    target: OpenFaasFunctionPossibleStatus::Okay,
                                },
                                ReconcileActionView::Perform(RequestView::GetStatus),
                            )
                        } else {
                            (
                                ReconcileStepView::DeletingServices {
                                    pending: targets.drop_first(),
                                },
                                ReconcileActionView::Perform(
                                    RequestView::DeleteService(targets[0]),
                                ),
                            )
                        }
                    },
                }
            },
            (ReconcileStepView::DeletingServices { pending }, ResponseView::Updated) => {
                if pending.len() == 0 {
                    (
                        ReconcileStepView::GettingStatusFor {
                            target: OpenFaasFunctionPossibleStatus::Okay,
                        },
                        ReconcileActionView::Perform(RequestView::GetStatus),
                    )
                } else {
                    (
                        ReconcileStepView::DeletingServices { pending: pending.drop_first() },
                        ReconcileActionView::Perform(RequestView::DeleteService(pending[0])),
                    )
                }
            },
            _ => (step, ReconcileActionView::Done(Outcome::Requeue)),
        }
    }
}

/// Whether the option holds an owner reference with the same fields.
fn owner_ref_eq(a: &OwnerReference, b: &OwnerReference) -> (r: bool)
    ensures
        r == (a@ == b@),
{
    let fields = str_eq(a.api_version.as_str(), b.api_version.as_str()) && str_eq(
        a.kind.as_str(),
        b.kind.as_str(),
    ) && str_eq(a.name.as_str(), b.name.as_str()) && str_eq(a.uid.as_str(), b.uid.as_str());
    let controller_eq = match (a.controller, b.controller) {
        (None, None) => true,
        (Some(x), Some(y)) => x == y,
        _ => false,
    };
    let bod_eq = match (a.block_owner_deletion, b.block_owner_deletion) {
        (None, None) => true,
        (Some(x), Some(y)) => x == y,
        _ => false,
    };
    let r = fields && controller_eq && bod_eq;
    proof {
        if r {
            assert(a@ =~= b@);
        }
    }
    r
}

/// Whether the child metadata carries the given owner reference.
fn meta_is_owned(m: &ObjectMeta, o: &OwnerReference) -> (r: bool)
    ensures
        r == spec_is_owned(m@, o@),
{
    match &m.owner_references {
        None => false,
        Some(rs) => {
            let n = rs.len();
            let mut i: usize = 0;
            while i < n
                invariant
                    i <= n,
                    n == rs@.len(),
                    m.owner_references == Some(*rs),
                    forall|j: int| 0 <= j < i ==> rs.deep_view()[j] != o@,
                decreases n - i,
            {
                if owner_ref_eq(&rs[i], o) {
                    proof {
                        assert(rs.deep_view()[i as int] == o@);
                        assert(rs.deep_view().contains(o@));
                        assert(m@.owner_references == Some(rs.deep_view()));
                    }
                    return true;
                }
                i = i + 1;
            }
            proof {
                if rs.deep_view().contains(o@) {
                    let j = choose|j: int|
                        0 <= j < rs.deep_view().len() && rs.deep_view()[j] == o@;
                    assert(rs.deep_view()[j] != o@);
                }
            }
            false
        },
    }
}

/// Whether the deployment reports at least one ready replica.
fn deployment_is_ready(d: &Deployment) -> (r: bool)
    ensures
        r == spec_is_ready(d@),
{
    match &d.status {
        Some(st) => match st.ready_replicas {
            Some(n) => n > 0,
            None => false,
        },
        None => false,
    }
}

fn name_of_meta(m: &ObjectMeta) -> (r: String)
    ensures
        r@ == spec_name_of(m@),
{
    match &m.name {
        Some(n) => n.clone(),
        None => String::new(),
    }
}

fn deployment_sweep_targets(list: &Vec<Deployment>, o: &OwnerReference, current: &String) -> (r:
    Vec<String>)
    ensures
        r.deep_view() == spec_deployment_sweep_targets(list.deep_view(), o@, current@),
{
    let n = list.len();
    let mut out: Vec<String> = Vec::new();
    proof {
        assert(list.deep_view().take(0) =~= Seq::<DeploymentView>::empty());
        assert(out.deep_view() =~= spec_deployment_sweep_targets(
            list.deep_view().take(0),
            o@,
            current@,
        ));
    }
    let mut i: usize = 0;
    while i < n
        invariant
            i <= n,
            n == list@.len(),
            out.deep_view() == spec_deployment_sweep_targets(
                list.deep_view().take(i as int),
                o@,
                current@,
            ),
        decreases n - i,
    {
        proof {
            assert(list.deep_view().take(i + 1).drop_last() =~= list.deep_view().take(i as int));
            assert(list.deep_view().take(i + 1).last() == list.deep_view()[i as int]);
            assert(list.deep_view()[i as int] == list@[i as int]@);
        }
        let name = name_of_meta(&list[i].metadata);
        if !str_eq(name.as_str(), current.as_str()) && meta_is_owned(&list[i].metadata, o) {
            out.push(name);
            proof {
                assert(out.deep_view() =~= spec_deployment_sweep_targets(
                    list.deep_view().take(i + 1),
                    o@,
                    current@,
                ));
            }
        }
        i = i + 1;
    }
    proof {
        assert(list.deep_view().take(n as int) =~= list.deep_view());
    }
    out
}

fn service_sweep_targets(list: &Vec<Service>, o: &OwnerReference, current: &String) -> (r: Vec<
    String,
>)
    ensures
        r.deep_view() == spec_service_sweep_targets(list.deep_view(), o@, current@),
{
    let n = list.len();
    let mut out: Vec<String> = Vec::new();
    proof {
        assert(list.deep_view().take(0) =~= Seq::<ServiceView>::empty());
        assert(out.deep_view() =~= spec_service_sweep_targets(
            list.deep_view().take(0),
            o@,
            current@,
        ));
    }
    let mut i: usize = 0;
    while i < n
        invariant
            i <= n,
            n == list@.len(),
            out.deep_view() == spec_service_sweep_targets(
                list.deep_view().take(i as int),
                o@,
                current@,
            ),
        decreases n - i,
    {
        proof {
            assert(list.deep_view().take(i + 1).drop_last() =~= list.deep_view().take(i as int));
            assert(list.deep_view().take(i + 1).last() == list.deep_view()[i as int]);
            assert(list.deep_view()[i as int] == list@[i as int]@);
        }
        let name = name_of_meta(&list[i].metadata);
        if !str_eq(name.as_str(), current.as_str()) && meta_is_owned(&list[i].metadata, o) {
            out.push(name);
            proof {
                assert(out.deep_view() =~= spec_service_sweep_targets(
                    list.deep_view().take(i + 1),
                    o@,
                    current@,
                ));
            }
        }
        i = i + 1;
    }
    proof {
        assert(list.deep_view().take(n as int) =~= list.deep_view());
    }
    out
}

/// Begins a reconcile pass for one declaration.
pub fn reconcile_start(cfg: &OperatorConfig, crd: &OpenFaaSFunction) -> (r: (
    ReconcileStep,
    ReconcileAction,
))
    ensures
        (r.0@, r.1@) == spec_reconcile_start(cfg@, crd@),
{
    match &crd.metadata.namespace {
        None => (
            ReconcileStep::CheckDeployment,
            ReconcileAction::Done(Outcome::Requeue),
        ),
        Some(ns) => {
            if !str_eq(ns.as_str(), cfg.functions_namespace.as_str()) {
                (
                    ReconcileStep::GettingStatusFor {
                        target: OpenFaasFunctionPossibleStatus::InvalidCRDNamespace,
                    },
                    ReconcileAction::Perform(Request::GetStatus),
                )
            } else {
                let function_ns_mismatch = match &crd.spec.namespace {
                    Some(fns) => !str_eq(fns.as_str(), cfg.functions_namespace.as_str()),
                    None => false,
                };
                if function_ns_mismatch {
                    (
                        ReconcileStep::GettingStatusFor {
                            target: OpenFaasFunctionPossibleStatus::InvalidFunctionNamespace,
                        },
                        ReconcileAction::Perform(Request::GetStatus),
                    )
                } else {
                    (
                        ReconcileStep::CheckDeployment,
                        ReconcileAction::Perform(Request::GetDeployment(crd.spec.to_name())),
                    )
                }
            }
        },
    }
}

/// Advances a reconcile pass by one decision.
pub fn reconcile_step(
    cfg: &OperatorConfig,
    crd: &OpenFaaSFunction,
    step: ReconcileStep,
    resp: Response,
) -> (r: (ReconcileStep, ReconcileAction))
    requires
        crd.spec.wf(),
    ensures
        (r.0@, r.1@) == spec_reconcile_step(cfg@, crd@, step@, resp@),
{
    if let Response::Failed = resp {
        return (step, ReconcileAction::Done(Outcome::Requeue));
    }
    match (step, resp) {
        (ReconcileStep::GettingStatusFor { target }, Response::Status(current)) => {
            let already = match current {
                Some(c) => c == target,
                None => false,
            };
            if already {
                (
                    ReconcileStep::GettingStatusFor { target },
                    ReconcileAction::Done(Outcome::AwaitChange),
                )
            } else {
                (
                    ReconcileStep::ReplacingStatusFor { target },
                    ReconcileAction::Perform(Request::ReplaceStatus(target)),
                )
            }
        },
        (ReconcileStep::ReplacingStatusFor { target }, Response::Updated) => (
            ReconcileStep::ReplacingStatusFor { target },
            ReconcileAction::Done(Outcome::AwaitChange),
        ),
        (ReconcileStep::CheckDeployment, Response::Deployment(found)) => {
            match crd.controller_owner_ref() {
                None => (
                    ReconcileStep::CheckDeployment,
                    ReconcileAction::Done(Outcome::Requeue),
                ),
                Some(oref) => match found {
                    Some(dep) => {
                        if !meta_is_owned(&dep.metadata, &oref) {
                            (
                                ReconcileStep::GettingStatusFor {
                                    target: OpenFaasFunctionPossibleStatus::DeploymentAlreadyExists,
                                },
                                ReconcileAction::Perform(Request::GetStatus),
                            )
                        } else if !deployment_is_ready(&dep) {
                            (
                                ReconcileStep::GettingStatusFor {
                                    target: OpenFaasFunctionPossibleStatus::DeploymentNotReady,
                                },
                                ReconcileAction::Perform(Request::GetStatus),
                            )
                        } else {
                            let one_way = match cfg.update_strategy {
                                UpdateStrategy::OneWay => true,
                                UpdateStrategy::Strategic => false,
                            };
                            if one_way && crd.spec.deployment_needs_recreation(&dep) {
                                (
                                    ReconcileStep::CheckSecrets { replace: true },
                                    ReconcileAction::Perform(Request::ListSecrets),
                                )
                            } else {
                                (
                                    ReconcileStep::SweepDeployments,
                                    ReconcileAction::Perform(Request::ListDeployments),
                                )
                            }
                        }
                    },
                    None => (
                        ReconcileStep::CheckSecrets { replace: false },
                        ReconcileAction::Perform(Request::ListSecrets),
                    ),
                },
            }
        },
        (ReconcileStep::CheckSecrets { replace }, Response::SecretNames(names)) => {
            let unique = crd.spec.get_secrets_unique_vec();
            let missing = collect_missing_keys_vec(&unique, &names);
            if missing.len() > 0 {
                (
                    ReconcileStep::GettingStatusFor {
                        target: OpenFaasFunctionPossibleStatus::SecretsNotFound,
                    },
                    ReconcileAction::Perform(Request::GetStatus),
                )
            } else {
                match crd.try_to_deployment(cfg.functions_namespace.as_str()) {
                    Ok(d) => {
                        if replace {
                            (
                                ReconcileStep::AfterWriteDeployment,
                                ReconcileAction::Perform(
                                    Request::ReplaceDeployment(crd.spec.to_name(), d),
                                ),
                            )
                        } else {
                            (
                                ReconcileStep::AfterWriteDeployment,
                                ReconcileAction::Perform(Request::CreateDeployment(d)),
                            )
                        }
                    },
                    Err(FunctionIntoDeploymentError::OwnerReference) => (
                        ReconcileStep::CheckSecrets { replace },
                        ReconcileAction::Done(Outcome::Requeue),
                    ),
                    Err(
                        FunctionIntoDeploymentError::FunctionSpec(
                            FunctionSpecIntoDeploymentError::Quantity(q),
                        ),
                    ) => {
                        let target = match q {
                            IntoQuantityError::CPU => OpenFaasFunctionPossibleStatus::CPUQuantity,
                            IntoQuantityError::Memory =>
                                OpenFaasFunctionPossibleStatus::MemoryQuantity,
                        };
                        (
                            ReconcileStep::GettingStatusFor { target },
                            ReconcileAction::Perform(Request::GetStatus),
                        )
                    },
                }
            }
        },
        (ReconcileStep::AfterWriteDeployment, Response::Updated) => (
            ReconcileStep::AfterWriteDeployment,
            ReconcileAction::Done(Outcome::AwaitChange),
        ),
        (ReconcileStep::SweepDeployments, Response::Deployments(list)) => {
            match crd.controller_owner_ref() {
                None => (
                    ReconcileStep::SweepDeployments,
                    ReconcileAction::Done(Outcome::Requeue),
                ),
                Some(oref) => {
                    let current = crd.spec.to_name();
                    let mut targets = deployment_sweep_targets(&list, &oref, &current);
                    if targets.len() == 0 {
                        (
                            ReconcileStep::CheckService,
                            ReconcileAction::Perform(Request::GetService(current)),
                        )
                    } else {
                        let first = targets.remove(0);
                        proof {
                            assert(targets.deep_view() =~= spec_deployment_sweep_targets(
                                list.deep_view(),
                                oref@,
                                current@,
                            ).drop_first());
                        }
                        (
                            ReconcileStep::DeletingDeployments { pending: targets },
                            ReconcileAction::Perform(Request::DeleteDeployment(first)),
                        )
                    }
                },
            }
        },
        (ReconcileStep::DeletingDeployments { pending }, Response::Updated) => {
            let mut pending = pending;
            if pending.len() == 0 {
                (
                    ReconcileStep::CheckService,
                    ReconcileAction::Perform(Request::GetService(crd.spec.to_name())),
                )
            } else {
                let ghost before = pending.deep_view();
                let first = pending.remove(0);
                proof {
                    assert(pending.deep_view() =~= before.drop_first());
                }
                (
                    ReconcileStep::DeletingDeployments { pending },
                    ReconcileAction::Perform(Request::DeleteDeployment(first)),
                )
            }
        },
        (ReconcileStep::CheckService, Response::Service(found)) => {
            match crd.controller_owner_ref() {
                None => (
                    ReconcileStep::CheckService,
                    ReconcileAction::Done(Outcome::Requeue),
                ),
                Some(oref) => match found {
                    Some(svc) => {
                        if !meta_is_owned(&svc.metadata, &oref) {
                            (
                                ReconcileStep::GettingStatusFor {
                                    target: OpenFaasFunctionPossibleStatus::ServiceAlreadyExists,
                                },
                                ReconcileAction::Perform(Request::GetStatus),
                            )
                        } else {
                            (
                                ReconcileStep::SweepServices,
                                ReconcileAction::Perform(Request::ListServices),
                            )
                        }
                    },
                    None => match crd.try_to_service(cfg.functions_namespace.as_str()) {
                        Ok(s) => (
                            ReconcileStep::AfterCreateService,
                            ReconcileAction::Perform(Request::CreateService(s)),
                        ),
                        Err(FunctionIntoServiceError::OwnerReference) => (
                            ReconcileStep::CheckService,
                            ReconcileAction::Done(Outcome::Requeue),
                        ),
                    },
                },
            }
        },
        (ReconcileStep::AfterCreateService, Response::Updated) => (
            ReconcileStep::SweepServices,
            ReconcileAction::Perform(Request::ListServices),
        ),
        (ReconcileStep::SweepServices, Response::Services(list)) => {
            match crd.controller_owner_ref() {
                None => (
                    ReconcileStep::SweepServices,
                    ReconcileAction::Done(Outcome::Requeue),
                ),
                Some(oref) => {
                    let current = crd.spec.to_name();
                    let mut targets = service_sweep_targets(&list, &oref, &current);
                    if targets.len() == 0 {
                        (
                            ReconcileStep::GettingStatusFor {
                                target: OpenFaasFunctionPossibleStatus::Okay,
                            },
                            ReconcileAction::Perform(Request::GetStatus),
                        )
                    } else {
                        let first = targets.remove(0);
                        proof {
                            assert(targets.deep_view() =~= spec_service_sweep_targets(
                                list.deep_view(),
                                oref@,
                                current@,
                            ).drop_first());
                        }
                        (
                            ReconcileStep::DeletingServices { pending: targets },
                            ReconcileAction::Perform(Request::DeleteService(first)),
                        )
                    }
                },
            }
        },
        (ReconcileStep::DeletingServices { pending }, Response::Updated) => {
            let mut pending = pending;
            if pending.len() == 0 {
                (
                    ReconcileStep::GettingStatusFor {
                        target: OpenFaasFunctionPossibleStatus::Okay,
                    },
                    ReconcileAction::Perform(Request::GetStatus),
                )
            } else {
                let ghost before = pending.deep_view();
                let first = pending.remove(0);
                proof {
                    assert(pending.deep_view() =~= before.drop_first());
                }
                (
                    ReconcileStep::DeletingServices { pending },
                    ReconcileAction::Perform(Request::DeleteService(first)),
                )
            }
        },
        (other, _) => (other, ReconcileAction::Done(Outcome::Requeue)),
    }
}

} // verus!
