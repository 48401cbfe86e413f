//! The operator's guarantees, stated and proved over the specification
//! functions of the projector and the reconcile machine.

use vstd::prelude::*;
use crate::crds::defs::{OpenFaaSFunctionView, OpenFaasFunctionPossibleStatus,
    OpenFaasFunctionSpecView};
use crate::crds::impls::{dedup_strs, secrets_of, spec_controller_owner_ref,
    spec_quantity_error};
use crate::k8s::{DeploymentView, ServiceView};
use crate::operator::controller::{spec_deployment_sweep_targets, spec_is_owned, spec_name_of,
    spec_reconcile_step, spec_service_sweep_targets, OperatorConfigView, Outcome,
    ReconcileActionView, ReconcileStepView, RequestView, ResponseView};
use crate::quantity::is_quantity;
use crate::utils::missing_items;

verus! {

/// Every quantity string the spec declares matches the documented grammar.
pub open spec fn spec_quantities_valid(v: OpenFaasFunctionSpecView) -> bool {
    &&& v.limits matches Some(fr) ==> ((fr.memory matches Some(m) ==> is_quantity(m)) && (
    fr.cpu matches Some(c) ==> is_quantity(c)))
    &&& v.requests matches Some(fr) ==> ((fr.memory matches Some(m) ==> is_quantity(m)) && (
    fr.cpu matches Some(c) ==> is_quantity(c)))
}

/// Law: projection is total on valid quantities. The projector accepts a
/// spec exactly when every declared cpu and memory string matches the
/// grammar; otherwise it rejects it with the reason of the first offending
/// string.
pub proof fn lemma_quantity_total(v: OpenFaasFunctionSpecView)
    ensures
        spec_quantity_error(v) is None <==> spec_quantities_valid(v),
{
}

/// Law: status writes are idempotent. A status read that already shows the
/// target reason ends the pass without any write on the status subresource.
pub proof fn lemma_status_idempotent(
    cfg: OperatorConfigView,
    f: OpenFaaSFunctionView,
    target: OpenFaasFunctionPossibleStatus,
)
    ensures
        spec_reconcile_step(
            cfg,
            f,
            ReconcileStepView::GettingStatusFor { target },
            ResponseView::Status(Some(target)),
        ) == (
            ReconcileStepView::GettingStatusFor { target },
            ReconcileActionView::Done(Outcome::AwaitChange),
        ),
{
}

/// Law: a quantity failure is translated to its reason. With the secrets
/// present, an invalid cpu or memory string moves the machine to the status
/// path for `CPUQuantity` or `MemoryQuantity`; once the reason is recorded
/// the pass awaits the next change, like every classified failure.
pub proof fn lemma_quantity_error_recorded(
    cfg: OperatorConfigView,
    f: OpenFaaSFunctionView,
    replace: bool,
    names: Seq<Seq<char>>,
)
    requires
        missing_items(dedup_strs(secrets_of(f.spec)), names).len() == 0,
        spec_controller_owner_ref(f) is Some,
        spec_quantity_error(f.spec) matches Some(q),
    ensures
        spec_reconcile_step(
            cfg,
            f,
            ReconcileStepView::CheckSecrets { replace },
            ResponseView::SecretNames(names),
        ) == (
            ReconcileStepView::GettingStatusFor {
                target: crate::operator::controller::spec_reason_for_quantity(
                    spec_quantity_error(f.spec)->0,
                ),
            },
            ReconcileActionView::Perform(RequestView::GetStatus),
        ),
{
}

/// Law: untranslatable failures touch no status. A projection that fails
/// for want of the owner reference ends the pass with a retry and requests
/// no status write at all.
pub proof fn lemma_untranslatable_error_requeues(
    cfg: OperatorConfigView,
    f: OpenFaaSFunctionView,
    replace: bool,
    names: Seq<Seq<char>>,
)
    requires
        missing_items(dedup_strs(secrets_of(f.spec)), names).len() == 0,
        spec_controller_owner_ref(f) is None,
    ensures
        spec_reconcile_step(
            cfg,
            f,
            ReconcileStepView::CheckSecrets { replace },
            ResponseView::SecretNames(names),
        ) == (
            ReconcileStepView::CheckSecrets { replace },
            ReconcileActionView::Done(Outcome::Requeue),
        ),
{
}

/// Law: a same-named Deployment without the owner reference is only
/// reported, never mutated. Observing it moves the machine to the status
/// path for `DeploymentAlreadyExists`; the only request that follows is a
/// status read.
pub proof fn lemma_foreign_deployment_untouched(
    cfg: OperatorConfigView,
    f: OpenFaaSFunctionView,
    dep: DeploymentView,
)
    requires
        spec_controller_owner_ref(f) matches Some(o) && !spec_is_owned(dep.metadata, o),
    ensures
        spec_reconcile_step(
            cfg,
            f,
            ReconcileStepView::CheckDeployment,
            ResponseView::Deployment(Some(dep)),
        ) == (
            ReconcileStepView::GettingStatusFor {
                target: OpenFaasFunctionPossibleStatus::DeploymentAlreadyExists,
            },
            ReconcileActionView::Perform(RequestView::GetStatus),
        ),
{
}

/// Law: a same-named Service without the owner reference is only reported,
/// never mutated.
pub proof fn lemma_foreign_service_untouched(
    cfg: OperatorConfigView,
    f: OpenFaaSFunctionView,
    svc: ServiceView,
)
    requires
        spec_controller_owner_ref(f) matches Some(o) && !spec_is_owned(svc.metadata, o),
    ensures
        spec_reconcile_step(
            cfg,
            f,
            ReconcileStepView::CheckService,
            ResponseView::Service(Some(svc)),
        ) == (
            ReconcileStepView::GettingStatusFor {
                target: OpenFaasFunctionPossibleStatus::ServiceAlreadyExists,
            },
            ReconcileActionView::Perform(RequestView::GetStatus),
        ),
{
}

/// Law: the deployment sweep is sound and complete. A name is deleted
/// exactly when some listed deployment goes by it, carries the owner
/// reference, and no longer matches the declared name.
pub proof fn lemma_deployment_sweep_exact(
    list: Seq<DeploymentView>,
    o: crate::k8s::OwnerReferenceView,
    cur: Seq<char>,
)
    ensures
        forall|nm: Seq<char>|
            #[trigger] spec_deployment_sweep_targets(list, o, cur).contains(nm) <==> exists|i: int|
                0 <= i < list.len() && spec_name_of(#[trigger] list[i].metadata) == nm
                    && spec_is_owned(list[i].metadata, o) && nm != cur,
    decreases list.len(),
{
    let targets = spec_deployment_sweep_targets(list, o, cur);
    if list.len() == 0 {
        assert forall|nm: Seq<char>| !(#[trigger] targets.contains(nm)) by {
            if targets.contains(nm) {
                let j = choose|j: int| 0 <= j < targets.len() && targets[j] == nm;
            }
        }
    } else {
        let head = list.drop_last();
        let rest = spec_deployment_sweep_targets(head, o, cur);
        lemma_deployment_sweep_exact(head, o, cur);
        let m = list.last().metadata;
        assert forall|nm: Seq<char>|
            #[trigger] targets.contains(nm) <==> exists|i: int|
                0 <= i < list.len() && spec_name_of(#[trigger] list[i].metadata) == nm
                    && spec_is_owned(list[i].metadata, o) && nm != cur by {
            if spec_name_of(m) != cur && spec_is_owned(m, o) {
                assert(targets == rest.push(spec_name_of(m)));
                if targets.contains(nm) {
                    let j = choose|j: int| 0 <= j < targets.len() && targets[j] == nm;
                    if j < rest.len() {
                        assert(rest[j] == nm);
                        assert(rest.contains(nm));
                        let i = choose|i: int|
                            0 <= i < head.len() && spec_name_of(#[trigger] head[i].metadata) == nm
                                && spec_is_owned(head[i].metadata, o) && nm != cur;
                        assert(list[i].metadata == head[i].metadata);
                    } else {
                        assert(nm == spec_name_of(m));
                        assert(list[list.len() - 1].metadata == m);
                    }
                }
                if exists|i: int|
                    0 <= i < list.len() && spec_name_of(#[trigger] list[i].metadata) == nm
                        && spec_is_owned(list[i].metadata, o) && nm != cur {
                    let i = choose|i: int|
                        0 <= i < list.len() && spec_name_of(#[trigger] list[i].metadata) == nm
                            && spec_is_owned(list[i].metadata, o) && nm != cur;
                    if i < list.len() - 1 {
                        assert(head[i].metadata == list[i].metadata);
                        assert(rest.contains(nm));
                        let j = choose|j: int| 0 <= j < rest.len() && rest[j] == nm;
                        assert(targets[j] == nm);
                    } else {
                        assert(targets[targets.len() - 1] == nm);
                    }
                }
            } else {
                assert(targets == rest);
                if targets.contains(nm) {
                    let i = choose|i: int|
                        0 <= i < head.len() && spec_name_of(#[trigger] head[i].metadata) == nm
                            && spec_is_owned(head[i].metadata, o) && nm != cur;
                    assert(list[i].metadata == head[i].metadata);
                }
                if exists|i: int|
                    0 <= i < list.len() && spec_name_of(#[trigger] list[i].metadata) == nm
                        && spec_is_owned(list[i].metadata, o) && nm != cur {
                    let i = choose|i: int|
                        0 <= i < list.len() && spec_name_of(#[trigger] list[i].metadata) == nm
                            && spec_is_owned(list[i].metadata, o) && nm != cur;
                    if i == list.len() - 1 {
                        assert(list[i].metadata == m);
                        assert(false);
                    } else {
                        assert(head[i].metadata == list[i].metadata);
                        assert(rest.contains(nm));
                        let j = choose|j: int| 0 <= j < rest.len() && rest[j] == nm;
                        assert(targets[j] == nm);
                    }
                }
            }
        }
    }
}

/// Law: the service sweep is sound and complete, in the same sense.
pub proof fn lemma_service_sweep_exact(
    list: Seq<ServiceView>,
    o: crate::k8s::OwnerReferenceView,
    cur: Seq<char>,
)
    ensures
        forall|nm: Seq<char>|
            #[trigger] spec_service_sweep_targets(list, o, cur).contains(nm) <==> exists|i: int|
                0 <= i < list.len() && spec_name_of(#[trigger] list[i].metadata) == nm
                    && spec_is_owned(list[i].metadata, o) && nm != cur,
    decreases list.len(),
{
    let targets = spec_service_sweep_targets(list, o, cur);
    if list.len() == 0 {
        assert forall|nm: Seq<char>| !(#[trigger] targets.contains(nm)) by {
            if targets.contains(nm) {
                let j = choose|j: int| 0 <= j < targets.len() && targets[j] == nm;
            }
        }
    } else {
        let head = list.drop_last();
        let rest = spec_service_sweep_targets(head, o, cur);
        lemma_service_sweep_exact(head, o, cur);
        let m = list.last().metadata;
        assert forall|nm: Seq<char>|
            #[trigger] targets.contains(nm) <==> exists|i: int|
                0 <= i < list.len() && spec_name_of(#[trigger] list[i].metadata) == nm
                    && spec_is_owned(list[i].metadata, o) && nm != cur by {
            if spec_name_of(m) != cur && spec_is_owned(m, o) {
                assert(targets == rest.push(spec_name_of(m)));
                if targets.contains(nm) {
                    let j = choose|j: int| 0 <= j < targets.len() && targets[j] == nm;
                    if j < rest.len() {
                        assert(rest[j] == nm);
                        assert(rest.contains(nm));
                        let i = choose|i: int|
                            0 <= i < head.len() && spec_name_of(#[trigger] head[i].metadata) == nm
                                && spec_is_owned(head[i].metadata, o) && nm != cur;
                        assert(list[i].metadata == head[i].metadata);
                    } else {
                        assert(nm == spec_name_of(m));
                        assert(list[list.len() - 1].metadata == m);
                    }
                }
                if exists|i: int|
                    0 <= i < list.len() && spec_name_of(#[trigger] list[i].metadata) == nm
                        && spec_is_owned(list[i].metadata, o) && nm != cur {
                    let i = choose|i: int|
                        0 <= i < list.len() && spec_name_of(#[trigger] list[i].metadata) == nm
                            && spec_is_owned(list[i].metadata, o) && nm != cur;
                    if i < list.len() - 1 {
                        assert(head[i].metadata == list[i].metadata);
                        assert(rest.contains(nm));
                        let j = choose|j: int| 0 <= j < rest.len() && rest[j] == nm;
                        assert(targets[j] == nm);
                    } else {
                        assert(targets[targets.len() - 1] == nm);
                    }
                }
            } else {
                assert(targets == rest);
                if targets.contains(nm) {
                    let i = choose|i: int|
                        0 <= i < head.len() && spec_name_of(#[trigger] head[i].metadata) == nm
                            && spec_is_owned(head[i].metadata, o) && nm != cur;
                    assert(list[i].metadata == head[i].metadata);
                }
                if exists|i: int|
                    0 <= i < list.len() && spec_name_of(#[trigger] list[i].metadata) == nm
                        && spec_is_owned(list[i].metadata, o) && nm != cur {
                    let i = choose|i: int|
                        0 <= i < list.len() && spec_name_of(#[trigger] list[i].metadata) == nm
                            && spec_is_owned(list[i].metadata, o) && nm != cur;
                    if i == list.len() - 1 {
                        assert(list[i].metadata == m);
                        assert(false);
                    } else {
                        assert(head[i].metadata == list[i].metadata);
                        assert(rest.contains(nm));
                        let j = choose|j: int| 0 <= j < rest.len() && rest[j] == nm;
                        assert(targets[j] == nm);
                    }
                }
            }
        }
    }
}

/// Law: name-binding after a clean sweep. When the deployment sweep finds
/// nothing to delete, every owned deployment in the namespace goes by the
/// declared name; since the namespace holds at most one object per name,
/// the one owned deployment is the one named after the declaration.
pub proof fn lemma_name_binding_deployments(
    list: Seq<DeploymentView>,
    o: crate::k8s::OwnerReferenceView,
    cur: Seq<char>,
)
    requires
        spec_deployment_sweep_targets(list, o, cur).len() == 0,
    ensures
        forall|i: int|
            0 <= i < list.len() && spec_is_owned(#[trigger] list[i].metadata, o)
                ==> spec_name_of(list[i].metadata) == cur,
{
    lemma_deployment_sweep_exact(list, o, cur);
    assert forall|i: int|
        0 <= i < list.len() && spec_is_owned(#[trigger] list[i].metadata, o) implies spec_name_of(
        list[i].metadata,
    ) == cur by {
        if spec_name_of(list[i].metadata) != cur {
            let nm = spec_name_of(list[i].metadata);
            assert(spec_deployment_sweep_targets(list, o, cur).contains(nm));
        }
    }
}

/// Law: name-binding after a clean sweep, for services.
pub proof fn lemma_name_binding_services(
    list: Seq<ServiceView>,
    o: crate::k8s::OwnerReferenceView,
    cur: Seq<char>,
)
    requires
        spec_service_sweep_targets(list, o, cur).len() == 0,
    ensures
        forall|i: int|
            0 <= i < list.len() && spec_is_owned(#[trigger] list[i].metadata, o)
                ==> spec_name_of(list[i].metadata) == cur,
{
    lemma_service_sweep_exact(list, o, cur);
    assert forall|i: int|
        0 <= i < list.len() && spec_is_owned(#[trigger] list[i].metadata, o) implies spec_name_of(
        list[i].metadata,
    ) == cur by {
        if spec_name_of(list[i].metadata) != cur {
            let nm = spec_name_of(list[i].metadata);
            assert(spec_service_sweep_targets(list, o, cur).contains(nm));
        }
    }
}

proof fn lemma_filter_member<A>(s: Seq<A>, pred: spec_fn(A) -> bool, x: A)
    requires
        s.filter(pred).contains(x),
    ensures
        s.contains(x),
    decreases s.len(),
{
    reveal(Seq::filter);
    if s.len() > 0 {
        let sub = s.drop_last().filter(pred);
        if pred(s.last()) {
            if x == s.last() {
                assert(s[s.len() - 1] == x);
            } else {
                let j = choose|j: int|
                    0 <= j < s.filter(pred).len() && s.filter(pred)[j] == x;
                assert(sub[j] == x);
                assert(sub.contains(x));
                lemma_filter_member(s.drop_last(), pred, x);
                let k = choose|k: int| 0 <= k < s.drop_last().len() && s.drop_last()[k] == x;
                assert(s[k] == x);
            }
        } else {
            lemma_filter_member(s.drop_last(), pred, x);
            let k = choose|k: int| 0 <= k < s.drop_last().len() && s.drop_last()[k] == x;
            assert(s[k] == x);
        }
    }
}

/// The deployments that survive the sweep: those whose name is not among
/// the sweep's targets.
pub open spec fn spec_surviving_deployments(
    list: Seq<DeploymentView>,
    o: crate::k8s::OwnerReferenceView,
    cur: Seq<char>,
) -> Seq<DeploymentView> {
    list.filter(
        |d: DeploymentView|
            !spec_deployment_sweep_targets(list, o, cur).contains(spec_name_of(d.metadata)),
    )
}

/// Law: rename convergence at the sweep. Deleting exactly the sweep's
/// targets from the namespace leaves every owned deployment under the
/// declared name: a declaration renamed from one service name to another
/// loses its stale children the first time the sweep runs after the new
/// child exists.
pub proof fn lemma_rename_convergence_deployments(
    list: Seq<DeploymentView>,
    o: crate::k8s::OwnerReferenceView,
    cur: Seq<char>,
)
    ensures
        forall|i: int|
            0 <= i < spec_surviving_deployments(list, o, cur).len() && spec_is_owned(
                #[trigger] spec_surviving_deployments(list, o, cur)[i].metadata,
                o,
            ) ==> spec_name_of(spec_surviving_deployments(list, o, cur)[i].metadata) == cur,
{
    lemma_deployment_sweep_exact(list, o, cur);
    let targets = spec_deployment_sweep_targets(list, o, cur);
    let pred = |d: DeploymentView| !targets.contains(spec_name_of(d.metadata));
    let after = spec_surviving_deployments(list, o, cur);
    assert(after == list.filter(pred));
    assert forall|i: int|
        0 <= i < after.len() && spec_is_owned(#[trigger] after[i].metadata, o) implies
        spec_name_of(after[i].metadata) == cur by {
        list.lemma_filter_pred(pred, i);
        if spec_name_of(after[i].metadata) != cur {
            let d = after[i];
            assert(pred(d));
            assert(after.contains(d));
            lemma_filter_member(list, pred, d);
            let j = choose|j: int| 0 <= j < list.len() && list[j] == d;
            let nm = spec_name_of(d.metadata);
            assert(spec_name_of(list[j].metadata) == nm && spec_is_owned(list[j].metadata, o)
                && nm != cur);
            assert(targets.contains(nm));
        }
    }
}

} // verus!

verus! {

/// Law: every projected Deployment records the spec that produced it. The
/// last-applied annotation of the canonical Deployment holds exactly the
/// spec's JSON.
pub proof fn lemma_last_applied_recorded(v: OpenFaasFunctionSpecView)
    ensures
        crate::string_map::sm_get(
            crate::crds::impls::spec_meta_annotations(v),
            crate::crds::impls::last_applied_annotation_key(),
        ) == Some(crate::crds::json::json_of_spec(v)),
{
    let base = match v.annotations {
        Some(a) => a,
        None => Seq::<(Seq<char>, Seq<char>)>::empty(),
    };
    crate::string_map::lemma_sm_insert_get(
        base,
        crate::crds::impls::last_applied_annotation_key(),
        crate::crds::json::json_of_spec(v),
    );
}

/// Law: annotation roundtrip. A spec decoded from an owned Deployment's
/// last-applied annotation is the spec that produced it, and re-projecting
/// it reproduces the Deployment and the Service on every field the
/// projector controls.
pub proof fn lemma_annotation_roundtrip(
    prev: OpenFaasFunctionSpecView,
    sp: OpenFaasFunctionSpecView,
    functions_namespace: Seq<char>,
)
    requires
        crate::crds::json::json_of_spec(sp) == crate::crds::json::json_of_spec(prev),
    ensures
        sp == prev,
        crate::crds::impls::spec_deployment(sp, functions_namespace)
            == crate::crds::impls::spec_deployment(prev, functions_namespace),
        crate::crds::impls::spec_service(sp, functions_namespace)
            == crate::crds::impls::spec_service(prev, functions_namespace),
{
    crate::crds::json_laws::lemma_json_of_spec_injective(sp, prev);
}

/// Law: the drift check is exact. Against the Deployment a previous spec
/// projected, recreation is needed exactly when the spec changed.
pub proof fn lemma_drift_exact(
    cur: OpenFaasFunctionSpecView,
    prev: OpenFaasFunctionSpecView,
    functions_namespace: Seq<char>,
)
    ensures
        crate::crds::impls::spec_needs_recreation(
            cur,
            crate::crds::impls::spec_deployment(prev, functions_namespace),
        ) <==> cur != prev,
{
    lemma_last_applied_recorded(prev);
    if crate::crds::json::json_of_spec(cur) == crate::crds::json::json_of_spec(prev) {
        crate::crds::json_laws::lemma_json_of_spec_injective(cur, prev);
    }
}

} // verus!

verus! {

/// A snapshot of the function namespace, as the responder of one reconcile
/// pass: reads answer from it, writes change it.
pub struct ClusterView {
    pub deployments: Seq<DeploymentView>,
    pub services: Seq<ServiceView>,
    pub secret_names: Seq<Seq<char>>,
    pub status: Option<OpenFaasFunctionPossibleStatus>,
}

pub open spec fn find_deployment(list: Seq<DeploymentView>, n: Seq<char>) -> Option<
    DeploymentView,
>
    decreases list.len(),
{
    if list.len() == 0 {
        None
    } else if spec_name_of(list[0].metadata) == n {
        Some(list[0])
    } else {
        find_deployment(list.drop_first(), n)
    }
}

pub open spec fn find_service(list: Seq<ServiceView>, n: Seq<char>) -> Option<ServiceView>
    decreases list.len(),
{
    if list.len() == 0 {
        None
    } else if spec_name_of(list[0].metadata) == n {
        Some(list[0])
    } else {
        find_service(list.drop_first(), n)
    }
}

/// What a truthful API server answers to each request.
pub open spec fn cluster_respond(w: ClusterView, req: RequestView) -> ResponseView {
    match req {
        RequestView::GetStatus => ResponseView::Status(w.status),
        RequestView::ReplaceStatus(_) => ResponseView::Updated,
        RequestView::GetDeployment(n) => ResponseView::Deployment(
            find_deployment(w.deployments, n),
        ),
        RequestView::ListDeployments => ResponseView::Deployments(w.deployments),
        RequestView::ListSecrets => ResponseView::SecretNames(w.secret_names),
        RequestView::CreateDeployment(_) => ResponseView::Updated,
        RequestView::ReplaceDeployment(_, _) => ResponseView::Updated,
        RequestView::DeleteDeployment(_) => ResponseView::Updated,
        RequestView::GetService(n) => ResponseView::Service(find_service(w.services, n)),
        RequestView::CreateService(_) => ResponseView::Updated,
        RequestView::ListServices => ResponseView::Services(w.services),
        RequestView::DeleteService(_) => ResponseView::Updated,
    }
}

/// How the namespace changes when a request is performed.
pub open spec fn cluster_apply(w: ClusterView, req: RequestView) -> ClusterView {
    match req {
        RequestView::ReplaceStatus(t) => ClusterView { status: Some(t), ..w },
        RequestView::CreateDeployment(d) => ClusterView {
            deployments: w.deployments.push(d),
            ..w
        },
        RequestView::ReplaceDeployment(n, d) => ClusterView {
            deployments: w.deployments.map_values(
                |dd: DeploymentView|
                    if spec_name_of(dd.metadata) == n {
                        d
                    } else {
                        dd
                    },
            ),
            ..w
        },
        RequestView::DeleteDeployment(n) => ClusterView {
            deployments: w.deployments.filter(
                |dd: DeploymentView| spec_name_of(dd.metadata) != n,
            ),
            ..w
        },
        RequestView::CreateService(s) => ClusterView { services: w.services.push(s), ..w },
        RequestView::DeleteService(n) => ClusterView {
            services: w.services.filter(|ss: ServiceView| spec_name_of(ss.metadata) != n),
            ..w
        },
        _ => w,
    }
}

/// How a reconcile pass against a truthful namespace can end.
pub enum PassResult {
    Finished(Outcome, ClusterView),
    OutOfFuel,
}

/// Runs the machine from a step and action against the snapshot, performing
/// each request on the snapshot itself.
pub open spec fn run_pass_from(
    cfg: OperatorConfigView,
    f: OpenFaaSFunctionView,
    w: ClusterView,
    step: ReconcileStepView,
    action: ReconcileActionView,
    fuel: nat,
) -> PassResult
    decreases fuel,
{
    match action {
        ReconcileActionView::Done(o) => PassResult::Finished(o, w),
        ReconcileActionView::Perform(req) => if fuel == 0 {
            PassResult::OutOfFuel
        } else {
            let resp = cluster_respond(w, req);
            let w2 = cluster_apply(w, req);
            let next = spec_reconcile_step(cfg, f, step, resp);
            run_pass_from(cfg, f, w2, next.0, next.1, (fuel - 1) as nat)
        },
    }
}

/// One whole reconcile pass for a declaration against a snapshot.
pub open spec fn run_pass(
    cfg: OperatorConfigView,
    f: OpenFaaSFunctionView,
    w: ClusterView,
    fuel: nat,
) -> PassResult {
    let start = crate::operator::controller::spec_reconcile_start(cfg, f);
    run_pass_from(cfg, f, w, start.0, start.1, fuel)
}

/// A declaration the namespace checks accept, with an owner reference.
pub open spec fn decl_admissible(cfg: OperatorConfigView, f: OpenFaaSFunctionView) -> bool {
    &&& f.metadata.namespace == Some(cfg.functions_namespace)
    &&& (f.spec.namespace is None || f.spec.namespace == Some(cfg.functions_namespace))
    &&& spec_controller_owner_ref(f) is Some
}

/// Law: first contact. Reconciling a declaration against a namespace that
/// holds its secrets but no deployment under the declared name creates
/// exactly the owned Deployment the spec projects to, and nothing else,
/// then awaits the resulting event. After a rename this is the first half
/// of the convergence: the child under the new name appears before any
/// stale child is touched.
pub proof fn lemma_first_pass_creates_the_owned_deployment(
    cfg: OperatorConfigView,
    f: OpenFaaSFunctionView,
    w: ClusterView,
)
    requires
        decl_admissible(cfg, f),
        spec_quantity_error(f.spec) is None,
        find_deployment(w.deployments, f.spec.service) is None,
        forall|s: Seq<char>|
            crate::crds::impls::dedup_strs(crate::crds::impls::secrets_of(f.spec)).contains(s)
                ==> w.secret_names.contains(s),
    ensures
        run_pass(cfg, f, w, 10) matches PassResult::Finished(outcome, w2)
            && outcome == Outcome::AwaitChange && w2.deployments == w.deployments.push(
            crate::crds::impls::spec_owned_deployment(f, cfg.functions_namespace),
        ) && w2.services == w.services,
{
    let start = crate::operator::controller::spec_reconcile_start(cfg, f);
    assert(start.0 is CheckDeployment);
    assert(start.1 == ReconcileActionView::Perform(
        RequestView::GetDeployment(f.spec.service),
    ));
    let s1 = spec_reconcile_step(
        cfg,
        f,
        ReconcileStepView::CheckDeployment,
        ResponseView::Deployment(None),
    );
    assert(s1.0 == ReconcileStepView::CheckSecrets { replace: false });
    assert(s1.1 == ReconcileActionView::Perform(RequestView::ListSecrets));
    let missing = crate::utils::missing_items(
        crate::crds::impls::dedup_strs(crate::crds::impls::secrets_of(f.spec)),
        w.secret_names,
    );
    assert(missing.len() == 0) by {
        lemma_missing_items_empty(
            crate::crds::impls::dedup_strs(crate::crds::impls::secrets_of(f.spec)),
            w.secret_names,
        );
    }
    let s2 = spec_reconcile_step(cfg, f, s1.0, ResponseView::SecretNames(w.secret_names));
    assert(s2.0 is AfterWriteDeployment);
    assert(s2.1 == ReconcileActionView::Perform(
        RequestView::CreateDeployment(crate::crds::impls::spec_owned_deployment(f, cfg.functions_namespace)),
    ));
    let s3 = spec_reconcile_step(cfg, f, s2.0, ResponseView::Updated);
    assert(s3.1 == ReconcileActionView::Done(Outcome::AwaitChange));
    let r0 = run_pass(cfg, f, w, 10);
    assert(r0 == run_pass_from(cfg, f, w, start.0, start.1, 10));
    assert(cluster_respond(w, RequestView::GetDeployment(f.spec.service))
        == ResponseView::Deployment(None));
    assert(cluster_apply(w, RequestView::GetDeployment(f.spec.service)) == w);
    assert(run_pass_from(cfg, f, w, start.0, start.1, 10) == run_pass_from(
        cfg,
        f,
        w,
        s1.0,
        s1.1,
        9,
    ));
    assert(cluster_respond(w, RequestView::ListSecrets) == ResponseView::SecretNames(
        w.secret_names,
    ));
    assert(cluster_apply(w, RequestView::ListSecrets) == w);
    assert(run_pass_from(cfg, f, w, s1.0, s1.1, 9) == run_pass_from(cfg, f, w, s2.0, s2.1, 8));
    let w_created = cluster_apply(
        w,
        RequestView::CreateDeployment(crate::crds::impls::spec_owned_deployment(f, cfg.functions_namespace)),
    );
    assert(w_created.deployments == w.deployments.push(
        crate::crds::impls::spec_owned_deployment(f, cfg.functions_namespace),
    ));
    assert(w_created.services == w.services);
    assert(run_pass_from(cfg, f, w, s2.0, s2.1, 8) == run_pass_from(
        cfg,
        f,
        w_created,
        s3.0,
        s3.1,
        7,
    ));
    assert(run_pass_from(cfg, f, w_created, s3.0, s3.1, 7) == PassResult::Finished(
        Outcome::AwaitChange,
        w_created,
    ));
}

/// When every wanted item is present, nothing is missing.
proof fn lemma_missing_items_empty(wanted: Seq<Seq<char>>, have: Seq<Seq<char>>)
    requires
        forall|s: Seq<char>| wanted.contains(s) ==> have.contains(s),
    ensures
        crate::utils::missing_items(wanted, have).len() == 0,
    decreases wanted.len(),
{
    if wanted.len() > 0 {
        assert(wanted.contains(wanted.last()));
        assert forall|s: Seq<char>| wanted.drop_last().contains(s) implies have.contains(s) by {
            let j = choose|j: int|
                0 <= j < wanted.drop_last().len() && wanted.drop_last()[j] == s;
            assert(wanted[j] == s);
        }
        lemma_missing_items_empty(wanted.drop_last(), have);
    }
}

} // verus!

verus! {

proof fn lemma_filter_pair<A>(s: Seq<A>, pred: spec_fn(A) -> bool)
    requires
        s.len() == 2,
        !pred(s[0]),
        pred(s[1]),
    ensures
        s.filter(pred) =~= seq![s[1]],
{
    reveal(Seq::filter);
    assert(s.drop_last().len() == 1);
    assert(s.drop_last()[0] == s[0]);
    assert(s.drop_last().drop_last().len() == 0);
    assert(s.drop_last().drop_last().filter(pred) =~= Seq::<A>::empty());
    assert(s.drop_last().filter(pred) =~= Seq::<A>::empty());
    assert(s.last() == s[1]);
}

/// Law: rename convergence, the settling pass. After a rename the child
/// under the new name exists (previous law) and, once it reports ready, the
/// next pass deletes the one stale owned Deployment and the one stale owned
/// Service, touches nothing else, and ends with the status at its healthy
/// reason. Exactly one owned Deployment and one owned Service remain, both
/// under the declared name.
pub proof fn lemma_settled_pass_converges(
    cfg: OperatorConfigView,
    f: OpenFaaSFunctionView,
    w: ClusterView,
    o: crate::k8s::OwnerReferenceView,
    d_a: DeploymentView,
    d_b: DeploymentView,
    s_a: ServiceView,
    s_b: ServiceView,
)
    requires
        decl_admissible(cfg, f),
        cfg.update_strategy is OneWay,
        spec_controller_owner_ref(f) == Some(o),
        w.deployments == seq![d_a, d_b],
        w.services == seq![s_a, s_b],
        d_b.metadata == crate::crds::impls::spec_owned_deployment(f, cfg.functions_namespace).metadata,
        crate::operator::controller::spec_is_ready(d_b),
        spec_name_of(d_a.metadata) != f.spec.service,
        spec_is_owned(d_a.metadata, o),
        s_b.metadata == crate::crds::impls::spec_owned_service(f, cfg.functions_namespace).metadata,
        spec_name_of(s_a.metadata) != f.spec.service,
        spec_is_owned(s_a.metadata, o),
    ensures
        run_pass(cfg, f, w, 14) matches PassResult::Finished(outcome, w2)
            && outcome == Outcome::AwaitChange && w2.deployments == seq![d_b] && w2.services
            == seq![s_b] && w2.status == Some(OpenFaasFunctionPossibleStatus::Okay),
{
    let service = f.spec.service;
    let name_a = spec_name_of(d_a.metadata);
    let svc_name_a = spec_name_of(s_a.metadata);
    assert(crate::crds::impls::spec_owned_deployment(f, cfg.functions_namespace).metadata.name
        == Some(service));
    assert(spec_name_of(d_b.metadata) == service);
    assert(crate::crds::impls::spec_owned_service(f, cfg.functions_namespace).metadata.name
        == Some(service));
    assert(spec_name_of(s_b.metadata) == service);
    assert(d_b.metadata.owner_references == Some(seq![o]));
    assert(seq![o][0] == o);
    assert(spec_is_owned(d_b.metadata, o));
    assert(s_b.metadata.owner_references == Some(seq![o]));
    assert(spec_is_owned(s_b.metadata, o));

    // the machine asks for the deployment under the declared name and is
    // answered with the renamed child
    let start = crate::operator::controller::spec_reconcile_start(cfg, f);
    assert(start.0 is CheckDeployment);
    assert(start.1 == ReconcileActionView::Perform(RequestView::GetDeployment(service)));
    assert(w.deployments.drop_first() =~= seq![d_b]);
    assert(seq![d_b].drop_first() =~= Seq::<DeploymentView>::empty());
    assert(w.deployments[0] == d_a);
    assert(find_deployment(w.deployments.drop_first(), service) == Some(d_b));
    assert(find_deployment(w.deployments, service) == Some(d_b));

    // the child is owned, ready, and carries the current spec: no drift
    lemma_last_applied_recorded(f.spec);
    assert(d_b.metadata.annotations == Some(
        crate::crds::impls::spec_meta_annotations(f.spec),
    ));
    assert(!crate::crds::impls::spec_needs_recreation(f.spec, d_b));
    let s1 = spec_reconcile_step(
        cfg,
        f,
        ReconcileStepView::CheckDeployment,
        ResponseView::Deployment(Some(d_b)),
    );
    assert(s1.0 is SweepDeployments);
    assert(s1.1 == ReconcileActionView::Perform(RequestView::ListDeployments));

    // the sweep names exactly the stale child
    assert(w.deployments.drop_last() =~= seq![d_a]);
    assert(seq![d_a].drop_last() =~= Seq::<DeploymentView>::empty());
    let targets = spec_deployment_sweep_targets(w.deployments, o, service);
    assert(spec_deployment_sweep_targets(
        seq![d_a].drop_last(),
        o,
        service,
    ) =~= Seq::<Seq<char>>::empty());
    assert(spec_deployment_sweep_targets(seq![d_a], o, service) =~= seq![name_a]);
    assert(spec_deployment_sweep_targets(w.deployments.drop_last(), o, service)
        =~= seq![name_a]);
    assert(targets =~= seq![name_a]);
    let s2 = spec_reconcile_step(cfg, f, s1.0, ResponseView::Deployments(w.deployments));
    assert(targets.drop_first() =~= Seq::<Seq<char>>::empty());
    assert(s2.0 == ReconcileStepView::DeletingDeployments {
        pending: Seq::<Seq<char>>::empty(),
    });
    assert(s2.1 == ReconcileActionView::Perform(RequestView::DeleteDeployment(name_a)));

    // deleting it leaves only the renamed child
    let w_d = cluster_apply(w, RequestView::DeleteDeployment(name_a));
    lemma_filter_pair(
        w.deployments,
        |dd: DeploymentView| spec_name_of(dd.metadata) != name_a,
    );
    assert(w_d.deployments =~= seq![d_b]);
    assert(w_d.services == w.services);
    let s3 = spec_reconcile_step(cfg, f, s2.0, ResponseView::Updated);
    assert(s3.0 is CheckService);
    assert(s3.1 == ReconcileActionView::Perform(RequestView::GetService(service)));

    // the service side walks the same path
    assert(w.services.drop_first() =~= seq![s_b]);
    assert(seq![s_b].drop_first() =~= Seq::<ServiceView>::empty());
    assert(w.services[0] == s_a);
    assert(find_service(w.services.drop_first(), service) == Some(s_b));
    assert(find_service(w.services, service) == Some(s_b));
    let s4 = spec_reconcile_step(cfg, f, s3.0, ResponseView::Service(Some(s_b)));
    assert(s4.0 is SweepServices);
    assert(s4.1 == ReconcileActionView::Perform(RequestView::ListServices));
    assert(w.services.drop_last() =~= seq![s_a]);
    assert(seq![s_a].drop_last() =~= Seq::<ServiceView>::empty());
    let svc_targets = spec_service_sweep_targets(w.services, o, service);
    assert(spec_service_sweep_targets(
        seq![s_a].drop_last(),
        o,
        service,
    ) =~= Seq::<Seq<char>>::empty());
    assert(spec_service_sweep_targets(seq![s_a], o, service) =~= seq![svc_name_a]);
    assert(spec_service_sweep_targets(w.services.drop_last(), o, service) =~= seq![svc_name_a]);
    assert(svc_targets =~= seq![svc_name_a]);
    let s5 = spec_reconcile_step(cfg, f, s4.0, ResponseView::Services(w.services));
    assert(svc_targets.drop_first() =~= Seq::<Seq<char>>::empty());
    assert(s5.0 == ReconcileStepView::DeletingServices { pending: Seq::<Seq<char>>::empty() });
    assert(s5.1 == ReconcileActionView::Perform(RequestView::DeleteService(svc_name_a)));
    let w_s = cluster_apply(w_d, RequestView::DeleteService(svc_name_a));
    lemma_filter_pair(
        w_d.services,
        |ss: ServiceView| spec_name_of(ss.metadata) != svc_name_a,
    );
    assert(w_s.services =~= seq![s_b]);
    assert(w_s.deployments == w_d.deployments);
    let s6 = spec_reconcile_step(cfg, f, s5.0, ResponseView::Updated);
    assert(s6.0 == ReconcileStepView::GettingStatusFor {
        target: OpenFaasFunctionPossibleStatus::Okay,
    });
    assert(s6.1 == ReconcileActionView::Perform(RequestView::GetStatus));

    // the pass ends with the healthy reason recorded, written only if it
    // was not already there
    let s7 = spec_reconcile_step(cfg, f, s6.0, ResponseView::Status(w.status));

    // stitch the steps into the run
    let r0 = run_pass(cfg, f, w, 14);
    assert(cluster_respond(w, RequestView::GetDeployment(service)) == ResponseView::Deployment(
        Some(d_b),
    ));
    assert(cluster_apply(w, RequestView::GetDeployment(service)) == w);
    assert(r0 == run_pass_from(cfg, f, w, s1.0, s1.1, 13));
    assert(cluster_respond(w, RequestView::ListDeployments) == ResponseView::Deployments(
        w.deployments,
    ));
    assert(cluster_apply(w, RequestView::ListDeployments) == w);
    assert(r0 == run_pass_from(cfg, f, w, s2.0, s2.1, 12));
    assert(cluster_respond(w, RequestView::DeleteDeployment(name_a)) == ResponseView::Updated);
    assert(r0 == run_pass_from(cfg, f, w_d, s3.0, s3.1, 11));
    assert(cluster_respond(w_d, RequestView::GetService(service)) == ResponseView::Service(
        Some(s_b),
    ));
    assert(cluster_apply(w_d, RequestView::GetService(service)) == w_d);
    assert(r0 == run_pass_from(cfg, f, w_d, s4.0, s4.1, 10));
    assert(cluster_respond(w_d, RequestView::ListServices) == ResponseView::Services(
        w.services,
    ));
    assert(cluster_apply(w_d, RequestView::ListServices) == w_d);
    assert(r0 == run_pass_from(cfg, f, w_d, s5.0, s5.1, 9));
    assert(cluster_respond(w_d, RequestView::DeleteService(svc_name_a))
        == ResponseView::Updated);
    assert(r0 == run_pass_from(cfg, f, w_s, s6.0, s6.1, 8));
    assert(w_s.status == w.status);
    assert(cluster_respond(w_s, RequestView::GetStatus) == ResponseView::Status(w.status));
    assert(cluster_apply(w_s, RequestView::GetStatus) == w_s);
    assert(r0 == run_pass_from(cfg, f, w_s, s7.0, s7.1, 7));
    if w.status == Some(OpenFaasFunctionPossibleStatus::Okay) {
        assert(s7.1 == ReconcileActionView::Done(Outcome::AwaitChange));
        assert(r0 == PassResult::Finished(Outcome::AwaitChange, w_s));
    } else {
        assert(s7.1 == ReconcileActionView::Perform(
            RequestView::ReplaceStatus(OpenFaasFunctionPossibleStatus::Okay),
        ));
        let w_ok = cluster_apply(
            w_s,
            RequestView::ReplaceStatus(OpenFaasFunctionPossibleStatus::Okay),
        );
        assert(w_ok.status == Some(OpenFaasFunctionPossibleStatus::Okay));
        assert(w_ok.deployments == w_s.deployments);
        assert(w_ok.services == w_s.services);
        let s8 = spec_reconcile_step(cfg, f, s7.0, ResponseView::Updated);
        assert(s8.1 == ReconcileActionView::Done(Outcome::AwaitChange));
        assert(r0 == run_pass_from(cfg, f, w_ok, s8.0, s8.1, 6));
        assert(r0 == PassResult::Finished(Outcome::AwaitChange, w_ok));
    }
}

} // verus!

verus! {

/// Law: foreign-object safety over a whole pass. When the deployment under
/// the declared name exists but is not owned, the pass reports
/// `DeploymentAlreadyExists` and changes nothing in the namespace: however
/// many times it runs, the foreign object is never mutated.
pub proof fn lemma_foreign_collision_pass_mutates_nothing(
    cfg: OperatorConfigView,
    f: OpenFaaSFunctionView,
    w: ClusterView,
    o: crate::k8s::OwnerReferenceView,
    foreign: DeploymentView,
)
    requires
        decl_admissible(cfg, f),
        spec_controller_owner_ref(f) == Some(o),
        find_deployment(w.deployments, f.spec.service) == Some(foreign),
        !spec_is_owned(foreign.metadata, o),
    ensures
        run_pass(cfg, f, w, 10) matches PassResult::Finished(outcome, w2)
            && outcome == Outcome::AwaitChange && w2.deployments == w.deployments && w2.services
            == w.services && w2.status == Some(
            OpenFaasFunctionPossibleStatus::DeploymentAlreadyExists,
        ),
{
    let service = f.spec.service;
    let start = crate::operator::controller::spec_reconcile_start(cfg, f);
    assert(start.0 is CheckDeployment);
    assert(start.1 == ReconcileActionView::Perform(RequestView::GetDeployment(service)));
    let s1 = spec_reconcile_step(
        cfg,
        f,
        ReconcileStepView::CheckDeployment,
        ResponseView::Deployment(Some(foreign)),
    );
    assert(s1.0 == ReconcileStepView::GettingStatusFor {
        target: OpenFaasFunctionPossibleStatus::DeploymentAlreadyExists,
    });
    assert(s1.1 == ReconcileActionView::Perform(RequestView::GetStatus));
    let s2 = spec_reconcile_step(cfg, f, s1.0, ResponseView::Status(w.status));
    let r0 = run_pass(cfg, f, w, 10);
    assert(cluster_apply(w, RequestView::GetDeployment(service)) == w);
    assert(r0 == run_pass_from(cfg, f, w, s1.0, s1.1, 9));
    assert(cluster_apply(w, RequestView::GetStatus) == w);
    assert(r0 == run_pass_from(cfg, f, w, s2.0, s2.1, 8));
    if w.status == Some(OpenFaasFunctionPossibleStatus::DeploymentAlreadyExists) {
        assert(s2.1 == ReconcileActionView::Done(Outcome::AwaitChange));
        assert(r0 == PassResult::Finished(Outcome::AwaitChange, w));
    } else {
        assert(s2.1 == ReconcileActionView::Perform(
            RequestView::ReplaceStatus(OpenFaasFunctionPossibleStatus::DeploymentAlreadyExists),
        ));
        let w_r = cluster_apply(
            w,
            RequestView::ReplaceStatus(OpenFaasFunctionPossibleStatus::DeploymentAlreadyExists),
        );
        assert(w_r.deployments == w.deployments);
        assert(w_r.services == w.services);
        let s3 = spec_reconcile_step(cfg, f, s2.0, ResponseView::Updated);
        assert(s3.1 == ReconcileActionView::Done(Outcome::AwaitChange));
        assert(r0 == run_pass_from(cfg, f, w_r, s3.0, s3.1, 7));
        assert(r0 == PassResult::Finished(Outcome::AwaitChange, w_r));
    }
}

} // verus!

verus! {

/// Whether a request mutates the namespace or the status subresource.
pub open spec fn is_write_request(req: RequestView) -> bool {
    match req {
        RequestView::ReplaceStatus(_) => true,
        RequestView::CreateDeployment(_) => true,
        RequestView::ReplaceDeployment(_, _) => true,
        RequestView::DeleteDeployment(_) => true,
        RequestView::CreateService(_) => true,
        RequestView::DeleteService(_) => true,
        _ => false,
    }
}

/// The write requests a pass performs, in order.
pub open spec fn run_pass_writes_from(
    cfg: OperatorConfigView,
    f: OpenFaaSFunctionView,
    w: ClusterView,
    step: ReconcileStepView,
    action: ReconcileActionView,
    fuel: nat,
) -> Seq<RequestView>
    decreases fuel,
{
    match action {
        ReconcileActionView::Done(_) => Seq::empty(),
        ReconcileActionView::Perform(req) => if fuel == 0 {
            Seq::empty()
        } else {
            let here: Seq<RequestView> = if is_write_request(req) {
                seq![req]
            } else {
                Seq::empty()
            };
            let resp = cluster_respond(w, req);
            let w2 = cluster_apply(w, req);
            let next = spec_reconcile_step(cfg, f, step, resp);
            here + run_pass_writes_from(cfg, f, w2, next.0, next.1, (fuel - 1) as nat)
        },
    }
}

/// The write requests of one whole pass.
pub open spec fn run_pass_writes(
    cfg: OperatorConfigView,
    f: OpenFaaSFunctionView,
    w: ClusterView,
    fuel: nat,
) -> Seq<RequestView> {
    let start = crate::operator::controller::spec_reconcile_start(cfg, f);
    run_pass_writes_from(cfg, f, w, start.0, start.1, fuel)
}

/// Law: steady state. A pass over a namespace already reconciled to the
/// declaration, with the healthy reason recorded, performs no write at all:
/// consecutive reconciles that observe no spec or world change write the
/// status once and never again.
pub proof fn lemma_steady_state_pass_writes_nothing(
    cfg: OperatorConfigView,
    f: OpenFaaSFunctionView,
    w: ClusterView,
    o: crate::k8s::OwnerReferenceView,
    d_b: DeploymentView,
    s_b: ServiceView,
)
    requires
        decl_admissible(cfg, f),
        cfg.update_strategy is OneWay,
        spec_controller_owner_ref(f) == Some(o),
        w.deployments == seq![d_b],
        w.services == seq![s_b],
        d_b.metadata == crate::crds::impls::spec_owned_deployment(f, cfg.functions_namespace).metadata,
        crate::operator::controller::spec_is_ready(d_b),
        s_b.metadata == crate::crds::impls::spec_owned_service(f, cfg.functions_namespace).metadata,
        w.status == Some(OpenFaasFunctionPossibleStatus::Okay),
    ensures
        run_pass(cfg, f, w, 10) == PassResult::Finished(Outcome::AwaitChange, w),
        run_pass_writes(cfg, f, w, 10) == Seq::<RequestView>::empty(),
{
    let service = f.spec.service;
    assert(crate::crds::impls::spec_owned_deployment(f, cfg.functions_namespace).metadata.name
        == Some(service));
    assert(spec_name_of(d_b.metadata) == service);
    assert(crate::crds::impls::spec_owned_service(f, cfg.functions_namespace).metadata.name
        == Some(service));
    assert(spec_name_of(s_b.metadata) == service);
    assert(d_b.metadata.owner_references == Some(seq![o]));
    assert(seq![o][0] == o);
    assert(spec_is_owned(d_b.metadata, o));
    assert(s_b.metadata.owner_references == Some(seq![o]));
    assert(spec_is_owned(s_b.metadata, o));

    let start = crate::operator::controller::spec_reconcile_start(cfg, f);
    assert(start.0 is CheckDeployment);
    assert(start.1 == ReconcileActionView::Perform(RequestView::GetDeployment(service)));
    assert(find_deployment(w.deployments, service) == Some(d_b));
    lemma_last_applied_recorded(f.spec);
    assert(!crate::crds::impls::spec_needs_recreation(f.spec, d_b));
    let s1 = spec_reconcile_step(
        cfg,
        f,
        ReconcileStepView::CheckDeployment,
        ResponseView::Deployment(Some(d_b)),
    );
    assert(s1.0 is SweepDeployments);
    assert(s1.1 == ReconcileActionView::Perform(RequestView::ListDeployments));
    assert(w.deployments.drop_last() =~= Seq::<DeploymentView>::empty());
    assert(spec_deployment_sweep_targets(w.deployments.drop_last(), o, service)
        =~= Seq::<Seq<char>>::empty());
    assert(spec_deployment_sweep_targets(w.deployments, o, service)
        =~= Seq::<Seq<char>>::empty());
    let s2 = spec_reconcile_step(cfg, f, s1.0, ResponseView::Deployments(w.deployments));
    assert(s2.0 is CheckService);
    assert(s2.1 == ReconcileActionView::Perform(RequestView::GetService(service)));
    assert(find_service(w.services, service) == Some(s_b));
    let s3 = spec_reconcile_step(cfg, f, s2.0, ResponseView::Service(Some(s_b)));
    assert(s3.0 is SweepServices);
    assert(s3.1 == ReconcileActionView::Perform(RequestView::ListServices));
    assert(w.services.drop_last() =~= Seq::<ServiceView>::empty());
    assert(spec_service_sweep_targets(w.services.drop_last(), o, service)
        =~= Seq::<Seq<char>>::empty());
    assert(spec_service_sweep_targets(w.services, o, service) =~= Seq::<Seq<char>>::empty());
    let s4 = spec_reconcile_step(cfg, f, s3.0, ResponseView::Services(w.services));
    assert(s4.0 == ReconcileStepView::GettingStatusFor {
        target: OpenFaasFunctionPossibleStatus::Okay,
    });
    assert(s4.1 == ReconcileActionView::Perform(RequestView::GetStatus));
    let s5 = spec_reconcile_step(cfg, f, s4.0, ResponseView::Status(w.status));
    assert(s5.1 == ReconcileActionView::Done(Outcome::AwaitChange));

    let r0 = run_pass(cfg, f, w, 10);
    assert(cluster_apply(w, RequestView::GetDeployment(service)) == w);
    assert(r0 == run_pass_from(cfg, f, w, s1.0, s1.1, 9));
    assert(cluster_apply(w, RequestView::ListDeployments) == w);
    assert(r0 == run_pass_from(cfg, f, w, s2.0, s2.1, 8));
    assert(cluster_apply(w, RequestView::GetService(service)) == w);
    assert(r0 == run_pass_from(cfg, f, w, s3.0, s3.1, 7));
    assert(cluster_apply(w, RequestView::ListServices) == w);
    assert(r0 == run_pass_from(cfg, f, w, s4.0, s4.1, 6));
    assert(cluster_apply(w, RequestView::GetStatus) == w);
    assert(r0 == run_pass_from(cfg, f, w, s5.0, s5.1, 5));
    assert(r0 == PassResult::Finished(Outcome::AwaitChange, w));

    let w0 = run_pass_writes(cfg, f, w, 10);
    assert(w0 =~= run_pass_writes_from(cfg, f, w, s1.0, s1.1, 9));
    assert(w0 =~= run_pass_writes_from(cfg, f, w, s2.0, s2.1, 8));
    assert(w0 =~= run_pass_writes_from(cfg, f, w, s3.0, s3.1, 7));
    assert(w0 =~= run_pass_writes_from(cfg, f, w, s4.0, s4.1, 6));
    assert(w0 =~= run_pass_writes_from(cfg, f, w, s5.0, s5.1, 5));
    assert(w0 =~= Seq::<RequestView>::empty());
}

} // verus!

verus! {

/// The namespace after deleting the deployments of the given names, in
/// order.
pub open spec fn apply_deployment_deletes(w: ClusterView, names: Seq<Seq<char>>) -> ClusterView
    decreases names.len(),
{
    if names.len() == 0 {
        w
    } else {
        apply_deployment_deletes(
            cluster_apply(w, RequestView::DeleteDeployment(names[0])),
            names.drop_first(),
        )
    }
}

/// The namespace after deleting the services of the given names, in order.
pub open spec fn apply_service_deletes(w: ClusterView, names: Seq<Seq<char>>) -> ClusterView
    decreases names.len(),
{
    if names.len() == 0 {
        w
    } else {
        apply_service_deletes(
            cluster_apply(w, RequestView::DeleteService(names[0])),
            names.drop_first(),
        )
    }
}

/// Draining the deployment deletions removes exactly the named children,
/// one request per name, and then turns to the service.
proof fn lemma_drain_deployments(
    cfg: OperatorConfigView,
    f: OpenFaaSFunctionView,
    w: ClusterView,
    first: Seq<char>,
    pending: Seq<Seq<char>>,
    fuel: nat,
)
    requires
        fuel > pending.len() + 1,
    ensures
        run_pass_from(
            cfg,
            f,
            w,
            ReconcileStepView::DeletingDeployments { pending },
            ReconcileActionView::Perform(RequestView::DeleteDeployment(first)),
            fuel,
        ) == run_pass_from(
            cfg,
            f,
            apply_deployment_deletes(w, seq![first] + pending),
            ReconcileStepView::CheckService,
            ReconcileActionView::Perform(RequestView::GetService(f.spec.service)),
            (fuel - pending.len() - 1) as nat,
        ),
    decreases pending.len(),
{
    let names = seq![first] + pending;
    assert(names[0] == first);
    assert(names.drop_first() =~= pending);
    let w1 = cluster_apply(w, RequestView::DeleteDeployment(first));
    assert(cluster_respond(w, RequestView::DeleteDeployment(first)) == ResponseView::Updated);
    let next = spec_reconcile_step(
        cfg,
        f,
        ReconcileStepView::DeletingDeployments { pending },
        ResponseView::Updated,
    );
    assert(apply_deployment_deletes(w, names) == apply_deployment_deletes(w1, pending));
    if pending.len() == 0 {
        assert(next.0 is CheckService);
        assert(next.1 == ReconcileActionView::Perform(
            RequestView::GetService(f.spec.service),
        ));
        assert(apply_deployment_deletes(w1, pending) == w1);
    } else {
        assert(next.0 == ReconcileStepView::DeletingDeployments {
            pending: pending.drop_first(),
        });
        assert(next.1 == ReconcileActionView::Perform(
            RequestView::DeleteDeployment(pending[0]),
        ));
        lemma_drain_deployments(cfg, f, w1, pending[0], pending.drop_first(), (fuel - 1) as nat);
        assert(seq![pending[0]] + pending.drop_first() =~= pending);
    }
}

/// Draining the service deletions removes exactly the named children, one
/// request per name, and then turns to the status.
proof fn lemma_drain_services(
    cfg: OperatorConfigView,
    f: OpenFaaSFunctionView,
    w: ClusterView,
    first: Seq<char>,
    pending: Seq<Seq<char>>,
    fuel: nat,
)
    requires
        fuel > pending.len() + 1,
    ensures
        run_pass_from(
            cfg,
            f,
            w,
            ReconcileStepView::DeletingServices { pending },
            ReconcileActionView::Perform(RequestView::DeleteService(first)),
            fuel,
        ) == run_pass_from(
            cfg,
            f,
            apply_service_deletes(w, seq![first] + pending),
            ReconcileStepView::GettingStatusFor {
                target: OpenFaasFunctionPossibleStatus::Okay,
            },
            ReconcileActionView::Perform(RequestView::GetStatus),
            (fuel - pending.len() - 1) as nat,
        ),
    decreases pending.len(),
{
    let names = seq![first] + pending;
    assert(names[0] == first);
    assert(names.drop_first() =~= pending);
    let w1 = cluster_apply(w, RequestView::DeleteService(first));
    assert(cluster_respond(w, RequestView::DeleteService(first)) == ResponseView::Updated);
    let next = spec_reconcile_step(
        cfg,
        f,
        ReconcileStepView::DeletingServices { pending },
        ResponseView::Updated,
    );
    assert(apply_service_deletes(w, names) == apply_service_deletes(w1, pending));
    if pending.len() == 0 {
        assert(next.0 == ReconcileStepView::GettingStatusFor {
            target: OpenFaasFunctionPossibleStatus::Okay,
        });
        assert(next.1 == ReconcileActionView::Perform(RequestView::GetStatus));
        assert(apply_service_deletes(w1, pending) == w1);
    } else {
        assert(next.0 == ReconcileStepView::DeletingServices {
            pending: pending.drop_first(),
        });
        assert(next.1 == ReconcileActionView::Perform(
            RequestView::DeleteService(pending[0]),
        ));
        lemma_drain_services(cfg, f, w1, pending[0], pending.drop_first(), (fuel - 1) as nat);
        assert(seq![pending[0]] + pending.drop_first() =~= pending);
    }
}

} // verus!

verus! {

proof fn lemma_deployment_deletes_frame(w: ClusterView, names: Seq<Seq<char>>)
    ensures
        apply_deployment_deletes(w, names).services == w.services,
        apply_deployment_deletes(w, names).secret_names == w.secret_names,
        apply_deployment_deletes(w, names).status == w.status,
    decreases names.len(),
{
    if names.len() > 0 {
        lemma_deployment_deletes_frame(
            cluster_apply(w, RequestView::DeleteDeployment(names[0])),
            names.drop_first(),
        );
    }
}

proof fn lemma_service_deletes_frame(w: ClusterView, names: Seq<Seq<char>>)
    ensures
        apply_service_deletes(w, names).deployments == w.deployments,
        apply_service_deletes(w, names).secret_names == w.secret_names,
        apply_service_deletes(w, names).status == w.status,
    decreases names.len(),
{
    if names.len() > 0 {
        lemma_service_deletes_frame(
            cluster_apply(w, RequestView::DeleteService(names[0])),
            names.drop_first(),
        );
    }
}

proof fn lemma_service_deletes_depend_on_services(
    w1: ClusterView,
    w2: ClusterView,
    names: Seq<Seq<char>>,
)
    requires
        w1.services == w2.services,
    ensures
        apply_service_deletes(w1, names).services == apply_service_deletes(w2, names).services,
    decreases names.len(),
{
    if names.len() > 0 {
        let a1 = cluster_apply(w1, RequestView::DeleteService(names[0]));
        let a2 = cluster_apply(w2, RequestView::DeleteService(names[0]));
        assert(a1.services == a2.services);
        lemma_service_deletes_depend_on_services(a1, a2, names.drop_first());
    }
}

/// Law: the reconciled pass, in general. Whatever else the namespace
/// holds, when the owned child under the declared name is present, ready,
/// and carries the current spec, and so is the owned service, one pass
/// deletes exactly the owned children under stale names, touches nothing
/// else, records the healthy reason, and awaits the next change.
pub proof fn lemma_reconciled_pass_sweeps_and_reports_ok(
    cfg: OperatorConfigView,
    f: OpenFaaSFunctionView,
    w: ClusterView,
    o: crate::k8s::OwnerReferenceView,
    d_b: DeploymentView,
    s_b: ServiceView,
    fuel: nat,
)
    requires
        decl_admissible(cfg, f),
        cfg.update_strategy is OneWay,
        spec_controller_owner_ref(f) == Some(o),
        find_deployment(w.deployments, f.spec.service) == Some(d_b),
        d_b.metadata == crate::crds::impls::spec_owned_deployment(f, cfg.functions_namespace).metadata,
        crate::operator::controller::spec_is_ready(d_b),
        find_service(w.services, f.spec.service) == Some(s_b),
        s_b.metadata == crate::crds::impls::spec_owned_service(f, cfg.functions_namespace).metadata,
        fuel == spec_deployment_sweep_targets(w.deployments, o, f.spec.service).len()
            + spec_service_sweep_targets(w.services, o, f.spec.service).len() + 9,
    ensures
        run_pass(cfg, f, w, fuel) matches PassResult::Finished(outcome, w2)
            && outcome == Outcome::AwaitChange && w2.status == Some(
            OpenFaasFunctionPossibleStatus::Okay,
        ) && w2.deployments == apply_deployment_deletes(
            w,
            spec_deployment_sweep_targets(w.deployments, o, f.spec.service),
        ).deployments && w2.services == apply_service_deletes(
            w,
            spec_service_sweep_targets(w.services, o, f.spec.service),
        ).services && w2.secret_names == w.secret_names,
{
    let service = f.spec.service;
    let dtargets = spec_deployment_sweep_targets(w.deployments, o, service);
    let stargets = spec_service_sweep_targets(w.services, o, service);
    let dlen = dtargets.len();
    let slen = stargets.len();

    // the declared child is owned and carries the current spec: no drift
    lemma_last_applied_recorded(f.spec);
    assert(d_b.metadata.owner_references == Some(seq![o]));
    assert(seq![o][0] == o);
    assert(spec_is_owned(d_b.metadata, o));
    assert(!crate::crds::impls::spec_needs_recreation(f.spec, d_b));
    assert(s_b.metadata.owner_references == Some(seq![o]));
    assert(spec_is_owned(s_b.metadata, o));

    let start = crate::operator::controller::spec_reconcile_start(cfg, f);
    assert(start.0 is CheckDeployment);
    assert(start.1 == ReconcileActionView::Perform(RequestView::GetDeployment(service)));
    let s1 = spec_reconcile_step(
        cfg,
        f,
        ReconcileStepView::CheckDeployment,
        ResponseView::Deployment(Some(d_b)),
    );
    assert(s1.0 is SweepDeployments);
    assert(s1.1 == ReconcileActionView::Perform(RequestView::ListDeployments));
    let s2 = spec_reconcile_step(cfg, f, s1.0, ResponseView::Deployments(w.deployments));

    let r0 = run_pass(cfg, f, w, fuel);
    assert(cluster_apply(w, RequestView::GetDeployment(service)) == w);
    assert(r0 == run_pass_from(cfg, f, w, s1.0, s1.1, (fuel - 1) as nat));
    assert(cluster_apply(w, RequestView::ListDeployments) == w);
    assert(r0 == run_pass_from(cfg, f, w, s2.0, s2.1, (fuel - 2) as nat));

    // the sweep deletes each stale owned deployment, then turns to the service
    let wd = apply_deployment_deletes(w, dtargets);
    lemma_deployment_deletes_frame(w, dtargets);
    if dlen == 0 {
        assert(s2.0 is CheckService);
        assert(s2.1 == ReconcileActionView::Perform(RequestView::GetService(service)));
        assert(wd == w);
        assert(r0 == run_pass_from(
            cfg,
            f,
            wd,
            ReconcileStepView::CheckService,
            ReconcileActionView::Perform(RequestView::GetService(service)),
            (slen + 7) as nat,
        ));
    } else {
        assert(s2.0 == ReconcileStepView::DeletingDeployments {
            pending: dtargets.drop_first(),
        });
        assert(s2.1 == ReconcileActionView::Perform(
            RequestView::DeleteDeployment(dtargets[0]),
        ));
        lemma_drain_deployments(
            cfg,
            f,
            w,
            dtargets[0],
            dtargets.drop_first(),
            (fuel - 2) as nat,
        );
        assert(seq![dtargets[0]] + dtargets.drop_first() =~= dtargets);
        assert(r0 == run_pass_from(
            cfg,
            f,
            wd,
            ReconcileStepView::CheckService,
            ReconcileActionView::Perform(RequestView::GetService(service)),
            (slen + 7) as nat,
        ));
    }

    // the service side walks the same path over the untouched services
    assert(wd.services == w.services);
    assert(find_service(wd.services, service) == Some(s_b));
    let s3 = spec_reconcile_step(
        cfg,
        f,
        ReconcileStepView::CheckService,
        ResponseView::Service(Some(s_b)),
    );
    assert(s3.0 is SweepServices);
    assert(s3.1 == ReconcileActionView::Perform(RequestView::ListServices));
    assert(cluster_apply(wd, RequestView::GetService(service)) == wd);
    assert(r0 == run_pass_from(cfg, f, wd, s3.0, s3.1, (slen + 6) as nat));
    assert(spec_service_sweep_targets(wd.services, o, service) == stargets);
    let s4 = spec_reconcile_step(cfg, f, s3.0, ResponseView::Services(wd.services));
    assert(cluster_apply(wd, RequestView::ListServices) == wd);
    assert(r0 == run_pass_from(cfg, f, wd, s4.0, s4.1, (slen + 5) as nat));

    let ws = apply_service_deletes(wd, stargets);
    lemma_service_deletes_frame(wd, stargets);
    lemma_service_deletes_depend_on_services(wd, w, stargets);
    let status_step = ReconcileStepView::GettingStatusFor {
        target: OpenFaasFunctionPossibleStatus::Okay,
    };
    if slen == 0 {
        assert(s4.0 == status_step);
        assert(s4.1 == ReconcileActionView::Perform(RequestView::GetStatus));
        assert(ws == wd);
        assert(r0 == run_pass_from(
            cfg,
            f,
            ws,
            status_step,
            ReconcileActionView::Perform(RequestView::GetStatus),
            5,
        )) by {
            assert(run_pass_from(cfg, f, wd, s4.0, s4.1, (slen + 5) as nat)
                == run_pass_from(cfg, f, wd, s4.0, s4.1, 5));
        }
    } else {
        assert(s4.0 == ReconcileStepView::DeletingServices {
            pending: stargets.drop_first(),
        });
        assert(s4.1 == ReconcileActionView::Perform(RequestView::DeleteService(stargets[0])));
        lemma_drain_services(cfg, f, wd, stargets[0], stargets.drop_first(), (slen + 5) as nat);
        assert(seq![stargets[0]] + stargets.drop_first() =~= stargets);
        assert(r0 == run_pass_from(
            cfg,
            f,
            ws,
            status_step,
            ReconcileActionView::Perform(RequestView::GetStatus),
            ((slen + 5) - (slen - 1) - 1) as nat,
        ));
        assert(((slen + 5) - (slen - 1) - 1) as nat == 5nat);
    }

    // the healthy reason is recorded, written only if it was not already
    assert(ws.deployments == wd.deployments);
    assert(ws.status == w.status);
    assert(ws.secret_names == w.secret_names);
    let s5 = spec_reconcile_step(cfg, f, status_step, ResponseView::Status(w.status));
    assert(cluster_respond(ws, RequestView::GetStatus) == ResponseView::Status(w.status));
    assert(cluster_apply(ws, RequestView::GetStatus) == ws);
    assert(r0 == run_pass_from(cfg, f, ws, s5.0, s5.1, 4));
    if w.status == Some(OpenFaasFunctionPossibleStatus::Okay) {
        assert(s5.1 == ReconcileActionView::Done(Outcome::AwaitChange));
        assert(r0 == PassResult::Finished(Outcome::AwaitChange, ws));
    } else {
        assert(s5.1 == ReconcileActionView::Perform(
            RequestView::ReplaceStatus(OpenFaasFunctionPossibleStatus::Okay),
        ));
        let w_ok = cluster_apply(
            ws,
            RequestView::ReplaceStatus(OpenFaasFunctionPossibleStatus::Okay),
        );
        assert(w_ok.status == Some(OpenFaasFunctionPossibleStatus::Okay));
        assert(w_ok.deployments == ws.deployments);
        assert(w_ok.services == ws.services);
        assert(w_ok.secret_names == ws.secret_names);
        let s6 = spec_reconcile_step(cfg, f, s5.0, ResponseView::Updated);
        assert(s6.1 == ReconcileActionView::Done(Outcome::AwaitChange));
        assert(r0 == run_pass_from(cfg, f, w_ok, s6.0, s6.1, 3));
        assert(r0 == PassResult::Finished(Outcome::AwaitChange, w_ok));
    }
}

} // verus!

verus! {

proof fn lemma_filter_membership<A>(s: Seq<A>, pred: spec_fn(A) -> bool, x: A)
    ensures
        s.filter(pred).contains(x) <==> s.contains(x) && pred(x),
{
    if s.filter(pred).contains(x) {
        let i = choose|i: int| 0 <= i < s.filter(pred).len() && s.filter(pred)[i] == x;
        s.lemma_filter_pred(pred, i);
        lemma_filter_member(s, pred, x);
    }
    if s.contains(x) && pred(x) {
        let i = choose|i: int| 0 <= i < s.len() && s[i] == x;
        s.lemma_filter_contains(pred, i);
    }
}

proof fn lemma_deployment_deletes_membership(
    w: ClusterView,
    names: Seq<Seq<char>>,
    d: DeploymentView,
)
    ensures
        apply_deployment_deletes(w, names).deployments.contains(d) <==> (
        w.deployments.contains(d) && !names.contains(spec_name_of(d.metadata))),
    decreases names.len(),
{
    if names.len() == 0 {
        if names.contains(spec_name_of(d.metadata)) {
            let j = choose|j: int| 0 <= j < names.len() && names[j] == spec_name_of(d.metadata);
        }
    } else {
        let w1 = cluster_apply(w, RequestView::DeleteDeployment(names[0]));
        lemma_filter_membership(
            w.deployments,
            |dd: DeploymentView| spec_name_of(dd.metadata) != names[0],
            d,
        );
        lemma_deployment_deletes_membership(w1, names.drop_first(), d);
        assert forall|nm: Seq<char>| #[trigger] names.contains(nm) implies (nm == names[0]
            || names.drop_first().contains(nm)) by {
            let j = choose|j: int| 0 <= j < names.len() && names[j] == nm;
            if j > 0 {
                assert(names.drop_first()[j - 1] == nm);
            }
        }
        if names.drop_first().contains(spec_name_of(d.metadata)) {
            let j = choose|j: int|
                0 <= j < names.drop_first().len() && names.drop_first()[j]
                    == spec_name_of(d.metadata);
            assert(names[j + 1] == spec_name_of(d.metadata));
        }
        if spec_name_of(d.metadata) == names[0] {
            assert(names.contains(spec_name_of(d.metadata)));
        }
    }
}

/// Law: name-binding after a reconciled pass. In the namespace the general
/// reconciled pass leaves behind, the owned Deployment under the declared
/// name is present, and every owned Deployment goes by the declared name:
/// with at most one object per name, exactly one owned Deployment exists
/// and it carries the declaration's current name.
pub proof fn lemma_name_binding_after_reconciled_pass(
    w: ClusterView,
    o: crate::k8s::OwnerReferenceView,
    d_b: DeploymentView,
    service: Seq<char>,
)
    requires
        w.deployments.contains(d_b),
        spec_name_of(d_b.metadata) == service,
        spec_is_owned(d_b.metadata, o),
    ensures
        apply_deployment_deletes(
            w,
            spec_deployment_sweep_targets(w.deployments, o, service),
        ).deployments.contains(d_b),
        forall|d: DeploymentView|
            apply_deployment_deletes(
                w,
                spec_deployment_sweep_targets(w.deployments, o, service),
            ).deployments.contains(d) && spec_is_owned(#[trigger] d.metadata, o)
                ==> spec_name_of(d.metadata) == service,
{
    let targets = spec_deployment_sweep_targets(w.deployments, o, service);
    lemma_deployment_sweep_exact(w.deployments, o, service);
    lemma_deployment_deletes_membership(w, targets, d_b);
    assert(!targets.contains(service));
    assert(apply_deployment_deletes(w, targets).deployments.contains(d_b));
    assert forall|d: DeploymentView|
        apply_deployment_deletes(w, targets).deployments.contains(d) && spec_is_owned(
            #[trigger] d.metadata,
            o,
        ) implies spec_name_of(d.metadata) == service by {
        lemma_deployment_deletes_membership(w, targets, d);
        if spec_name_of(d.metadata) != service {
            let i = choose|i: int| 0 <= i < w.deployments.len() && w.deployments[i] == d;
            assert(targets.contains(spec_name_of(d.metadata)));
        }
    }
}

} // verus!
