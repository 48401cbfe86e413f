//! The reconcile state machine, driven step by step through the scenarios
//! the operator must handle.

use openfaas_functions_operato_rs::crds::defs::{CrdMeta, OpenFaaSFunction,
    OpenFaasFunctionPossibleStatus, OpenFaasFunctionSpec, OpenFaasFunctionStatus};
use openfaas_functions_operato_rs::k8s::{Deployment, DeploymentStatus, ObjectMeta, Service};
use openfaas_functions_operato_rs::operator::controller::{reconcile_start, reconcile_step,
    OperatorConfig, Outcome, ReconcileAction, ReconcileStep, Request, Response, UpdateStrategy};

fn config() -> OperatorConfig {
    OperatorConfig {
        functions_namespace: "openfaas-fn".to_string(),
        update_strategy: UpdateStrategy::OneWay,
    }
}

fn base_spec(service: &str, image: &str) -> OpenFaasFunctionSpec {
    OpenFaasFunctionSpec {
        service: service.to_string(),
        image: image.to_string(),
        namespace: None,
        env_process: None,
        env_vars: None,
        constraints: None,
        secrets: None,
        labels: None,
        annotations: None,
        limits: None,
        requests: None,
        read_only_root_filesystem: None,
        secrets_mount_path: None,
    }
}

fn decl(service: &str) -> OpenFaaSFunction {
    OpenFaaSFunction {
        metadata: CrdMeta {
            name: Some(service.to_string()),
            namespace: Some("openfaas-fn".to_string()),
            uid: Some("uid-1".to_string()),
        },
        spec: base_spec(service, "img:1"),
        status: None,
    }
}

fn owned_ready_deployment(d: &OpenFaaSFunction) -> Deployment {
    let mut dep = d.try_to_deployment("openfaas-fn").expect("projection succeeds");
    dep.status = Some(DeploymentStatus {
        ready_replicas: Some(1),
    });
    dep
}

#[test]
fn wrong_resource_namespace_reports_invalid_crd_namespace() {
    let cfg = config();
    let mut d = decl("echo");
    d.metadata.namespace = Some("other-ns".to_string());
    let (step, action) = reconcile_start(&cfg, &d);
    assert_eq!(action, ReconcileAction::Perform(Request::GetStatus));
    // the status is not yet the target: a write follows
    let (step, action) = reconcile_step(&cfg, &d, step, Response::Status(None));
    assert_eq!(
        action,
        ReconcileAction::Perform(Request::ReplaceStatus(
            OpenFaasFunctionPossibleStatus::InvalidCRDNamespace
        ))
    );
    let (_, action) = reconcile_step(&cfg, &d, step, Response::Updated);
    assert_eq!(action, ReconcileAction::Done(Outcome::AwaitChange));
}

#[test]
fn repeated_reconcile_writes_status_once() {
    let cfg = config();
    let mut d = decl("echo");
    d.metadata.namespace = Some("other-ns".to_string());
    let (step, _) = reconcile_start(&cfg, &d);
    // the second pass observes the status it already wrote: no further write
    let (_, action) = reconcile_step(
        &cfg,
        &d,
        step,
        Response::Status(Some(OpenFaasFunctionPossibleStatus::InvalidCRDNamespace)),
    );
    assert_eq!(action, ReconcileAction::Done(Outcome::AwaitChange));
}

#[test]
fn function_namespace_mismatch_reports_invalid_function_namespace() {
    let cfg = config();
    let mut d = decl("echo");
    d.spec.namespace = Some("elsewhere".to_string());
    let (step, action) = reconcile_start(&cfg, &d);
    assert_eq!(action, ReconcileAction::Perform(Request::GetStatus));
    let (_, action) = reconcile_step(&cfg, &d, step, Response::Status(None));
    assert_eq!(
        action,
        ReconcileAction::Perform(Request::ReplaceStatus(
            OpenFaasFunctionPossibleStatus::InvalidFunctionNamespace
        ))
    );
}

#[test]
fn happy_path_creates_deployment_then_awaits() {
    let cfg = config();
    let d = decl("echo");
    let (step, action) = reconcile_start(&cfg, &d);
    assert_eq!(
        action,
        ReconcileAction::Perform(Request::GetDeployment("echo".to_string()))
    );
    let (step, action) = reconcile_step(&cfg, &d, step, Response::Deployment(None));
    assert_eq!(action, ReconcileAction::Perform(Request::ListSecrets));
    let (step, action) = reconcile_step(&cfg, &d, step, Response::SecretNames(vec![]));
    let expected = d.try_to_deployment("openfaas-fn").unwrap();
    assert_eq!(
        action,
        ReconcileAction::Perform(Request::CreateDeployment(expected))
    );
    let (_, action) = reconcile_step(&cfg, &d, step, Response::Updated);
    assert_eq!(action, ReconcileAction::Done(Outcome::AwaitChange));
}

#[test]
fn missing_secret_reports_secrets_not_found() {
    let cfg = config();
    let mut d = decl("s");
    d.spec.secrets = Some(vec!["does-not-exist".to_string()]);
    let (step, _) = reconcile_start(&cfg, &d);
    let (step, action) = reconcile_step(&cfg, &d, step, Response::Deployment(None));
    assert_eq!(action, ReconcileAction::Perform(Request::ListSecrets));
    let (step, action) = reconcile_step(
        &cfg,
        &d,
        step,
        Response::SecretNames(vec!["other".to_string()]),
    );
    assert_eq!(action, ReconcileAction::Perform(Request::GetStatus));
    let (_, action) = reconcile_step(&cfg, &d, step, Response::Status(None));
    assert_eq!(
        action,
        ReconcileAction::Perform(Request::ReplaceStatus(
            OpenFaasFunctionPossibleStatus::SecretsNotFound
        ))
    );
}

#[test]
fn present_secret_allows_creation() {
    let cfg = config();
    let mut d = decl("s");
    d.spec.secrets = Some(vec!["present".to_string()]);
    let (step, _) = reconcile_start(&cfg, &d);
    let (step, _) = reconcile_step(&cfg, &d, step, Response::Deployment(None));
    let (_, action) = reconcile_step(
        &cfg,
        &d,
        step,
        Response::SecretNames(vec!["present".to_string()]),
    );
    match action {
        ReconcileAction::Perform(Request::CreateDeployment(_)) => {}
        other => panic!("expected a deployment create, got {:?}", other),
    }
}

#[test]
fn foreign_deployment_reports_already_exists() {
    let cfg = config();
    let d = decl("echo");
    let foreign = Deployment {
        metadata: ObjectMeta {
            name: Some("echo".to_string()),
            namespace: None,
            labels: None,
            annotations: None,
            owner_references: None,
        },
        spec: None,
        status: None,
    };
    let (step, _) = reconcile_start(&cfg, &d);
    let (step, action) = reconcile_step(&cfg, &d, step, Response::Deployment(Some(foreign)));
    assert_eq!(action, ReconcileAction::Perform(Request::GetStatus));
    let (_, action) = reconcile_step(&cfg, &d, step, Response::Status(None));
    assert_eq!(
        action,
        ReconcileAction::Perform(Request::ReplaceStatus(
            OpenFaasFunctionPossibleStatus::DeploymentAlreadyExists
        ))
    );
}

#[test]
fn unready_deployment_reports_not_ready() {
    let cfg = config();
    let d = decl("echo");
    let mut dep = d.try_to_deployment("openfaas-fn").unwrap();
    dep.status = Some(DeploymentStatus {
        ready_replicas: Some(0),
    });
    let (step, _) = reconcile_start(&cfg, &d);
    let (_, action) = reconcile_step(&cfg, &d, step, Response::Deployment(Some(dep)));
    assert_eq!(action, ReconcileAction::Perform(Request::GetStatus));
}

#[test]
fn unchanged_deployment_proceeds_to_sweep_and_ready_status() {
    let cfg = config();
    let d = decl("echo");
    let dep = owned_ready_deployment(&d);
    let (step, _) = reconcile_start(&cfg, &d);
    let (step, action) = reconcile_step(&cfg, &d, step, Response::Deployment(Some(dep.clone())));
    assert_eq!(action, ReconcileAction::Perform(Request::ListDeployments));
    let (step, action) = reconcile_step(&cfg, &d, step, Response::Deployments(vec![dep]));
    assert_eq!(
        action,
        ReconcileAction::Perform(Request::GetService("echo".to_string()))
    );
    let svc = d.try_to_service("openfaas-fn").unwrap();
    let (step, action) = reconcile_step(&cfg, &d, step, Response::Service(Some(svc.clone())));
    assert_eq!(action, ReconcileAction::Perform(Request::ListServices));
    let (step, action) = reconcile_step(&cfg, &d, step, Response::Services(vec![svc]));
    assert_eq!(action, ReconcileAction::Perform(Request::GetStatus));
    let (_, action) = reconcile_step(&cfg, &d, step, Response::Status(None));
    assert_eq!(
        action,
        ReconcileAction::Perform(Request::ReplaceStatus(
            OpenFaasFunctionPossibleStatus::Okay
        ))
    );
}

#[test]
fn changed_spec_replaces_deployment() {
    let cfg = config();
    let mut d = decl("echo");
    let dep = owned_ready_deployment(&d);
    // the declaration changes after the deployment was applied
    d.spec.image = "img:2".to_string();
    let (step, _) = reconcile_start(&cfg, &d);
    let (step, action) = reconcile_step(&cfg, &d, step, Response::Deployment(Some(dep)));
    assert_eq!(action, ReconcileAction::Perform(Request::ListSecrets));
    let (_, action) = reconcile_step(&cfg, &d, step, Response::SecretNames(vec![]));
    let expected = d.try_to_deployment("openfaas-fn").unwrap();
    assert_eq!(
        action,
        ReconcileAction::Perform(Request::ReplaceDeployment("echo".to_string(), expected))
    );
}

#[test]
fn rename_deletes_the_stale_owned_deployment() {
    let cfg = config();
    // the declaration was reconciled under the old name, then renamed
    let old = decl("echo");
    let stale = owned_ready_deployment(&old);
    let mut renamed = decl("echo");
    renamed.spec.service = "ping".to_string();
    let fresh = owned_ready_deployment(&renamed);

    let (step, action) = reconcile_start(&cfg, &renamed);
    assert_eq!(
        action,
        ReconcileAction::Perform(Request::GetDeployment("ping".to_string()))
    );
    let (step, action) =
        reconcile_step(&cfg, &renamed, step, Response::Deployment(Some(fresh.clone())));
    assert_eq!(action, ReconcileAction::Perform(Request::ListDeployments));
    let (step, action) = reconcile_step(
        &cfg,
        &renamed,
        step,
        Response::Deployments(vec![stale, fresh]),
    );
    assert_eq!(
        action,
        ReconcileAction::Perform(Request::DeleteDeployment("echo".to_string()))
    );
    let (_, action) = reconcile_step(&cfg, &renamed, step, Response::Updated);
    assert_eq!(
        action,
        ReconcileAction::Perform(Request::GetService("ping".to_string()))
    );
}

#[test]
fn foreign_children_survive_the_sweep() {
    let cfg = config();
    let d = decl("echo");
    let dep = owned_ready_deployment(&d);
    let foreign = Deployment {
        metadata: ObjectMeta {
            name: Some("bystander".to_string()),
            namespace: None,
            labels: None,
            annotations: None,
            owner_references: None,
        },
        spec: None,
        status: None,
    };
    let (step, _) = reconcile_start(&cfg, &d);
    let (step, _) = reconcile_step(&cfg, &d, step, Response::Deployment(Some(dep.clone())));
    // the foreign deployment is not named by any delete
    let (_, action) = reconcile_step(
        &cfg,
        &d,
        step,
        Response::Deployments(vec![foreign, dep]),
    );
    assert_eq!(
        action,
        ReconcileAction::Perform(Request::GetService("echo".to_string()))
    );
}

#[test]
fn missing_service_is_created_then_swept() {
    let cfg = config();
    let d = decl("echo");
    let dep = owned_ready_deployment(&d);
    let (step, _) = reconcile_start(&cfg, &d);
    let (step, _) = reconcile_step(&cfg, &d, step, Response::Deployment(Some(dep.clone())));
    let (step, _) = reconcile_step(&cfg, &d, step, Response::Deployments(vec![dep]));
    let (step, action) = reconcile_step(&cfg, &d, step, Response::Service(None));
    let expected = d.try_to_service("openfaas-fn").unwrap();
    assert_eq!(
        action,
        ReconcileAction::Perform(Request::CreateService(expected))
    );
    let (_, action) = reconcile_step(&cfg, &d, step, Response::Updated);
    assert_eq!(action, ReconcileAction::Perform(Request::ListServices));
}

#[test]
fn foreign_service_reports_already_exists() {
    let cfg = config();
    let d = decl("echo");
    let dep = owned_ready_deployment(&d);
    let foreign = Service {
        metadata: ObjectMeta {
            name: Some("echo".to_string()),
            namespace: None,
            labels: None,
            annotations: None,
            owner_references: None,
        },
        spec: None,
    };
    let (step, _) = reconcile_start(&cfg, &d);
    let (step, _) = reconcile_step(&cfg, &d, step, Response::Deployment(Some(dep.clone())));
    let (step, _) = reconcile_step(&cfg, &d, step, Response::Deployments(vec![dep]));
    let (step, action) = reconcile_step(&cfg, &d, step, Response::Service(Some(foreign)));
    assert_eq!(action, ReconcileAction::Perform(Request::GetStatus));
    let (_, action) = reconcile_step(&cfg, &d, step, Response::Status(None));
    assert_eq!(
        action,
        ReconcileAction::Perform(Request::ReplaceStatus(
            OpenFaasFunctionPossibleStatus::ServiceAlreadyExists
        ))
    );
}

#[test]
fn invalid_quantity_sets_reason_then_requeues() {
    let cfg = config();
    let mut d = decl("echo");
    d.spec.limits = Some(
        openfaas_functions_operato_rs::crds::defs::FunctionResources {
            memory: None,
            cpu: Some("notaquantity".to_string()),
        },
    );
    let (step, _) = reconcile_start(&cfg, &d);
    let (step, _) = reconcile_step(&cfg, &d, step, Response::Deployment(None));
    let (step, action) = reconcile_step(&cfg, &d, step, Response::SecretNames(vec![]));
    assert_eq!(action, ReconcileAction::Perform(Request::GetStatus));
    let (step, action) = reconcile_step(&cfg, &d, step, Response::Status(None));
    assert_eq!(
        action,
        ReconcileAction::Perform(Request::ReplaceStatus(
            OpenFaasFunctionPossibleStatus::CPUQuantity
        ))
    );
    // the reason is recorded; the pass awaits the spec being fixed
    let (_, action) = reconcile_step(&cfg, &d, step, Response::Updated);
    assert_eq!(action, ReconcileAction::Done(Outcome::AwaitChange));
}

#[test]
fn failed_calls_requeue() {
    let cfg = config();
    let d = decl("echo");
    let (step, _) = reconcile_start(&cfg, &d);
    let (_, action) = reconcile_step(&cfg, &d, step, Response::Failed);
    assert_eq!(action, ReconcileAction::Done(Outcome::Requeue));
}

#[test]
fn missing_crd_namespace_requeues() {
    let cfg = config();
    let mut d = decl("echo");
    d.metadata.namespace = None;
    let (_, action) = reconcile_start(&cfg, &d);
    assert_eq!(action, ReconcileAction::Done(Outcome::Requeue));
}

#[test]
fn status_helpers_match_the_wire_shape() {
    let status = OpenFaasFunctionStatus::from_reason(
        OpenFaasFunctionPossibleStatus::DeploymentNotReady,
        "2024-01-01T00:00:00Z".to_string(),
    );
    assert_eq!(status.conditions.len(), 1);
    let c = &status.conditions[0];
    assert_eq!(c.status.status, "False");
    assert_eq!(
        c.message.message,
        Some("The function's deployment is not ready".to_string())
    );
    assert_eq!(c.reason, OpenFaasFunctionPossibleStatus::DeploymentNotReady);
    assert_eq!(
        status.possible_status(),
        Some(OpenFaasFunctionPossibleStatus::DeploymentNotReady)
    );

    let ok = OpenFaasFunctionStatus::from_reason(
        OpenFaasFunctionPossibleStatus::Okay,
        "t".to_string(),
    );
    assert_eq!(ok.conditions[0].status.status, "True");
    assert_eq!(ok.conditions[0].message.message, None);

    let empty = OpenFaasFunctionStatus { conditions: vec![] };
    assert_eq!(empty.possible_status(), None);
}

#[test]
fn deleting_pending_children_one_at_a_time() {
    let cfg = config();
    let d = decl("c");
    let step = ReconcileStep::DeletingDeployments {
        pending: vec!["a".to_string(), "b".to_string()],
    };
    let (step, action) = reconcile_step(&cfg, &d, step, Response::Updated);
    assert_eq!(
        action,
        ReconcileAction::Perform(Request::DeleteDeployment("a".to_string()))
    );
    let (step, action) = reconcile_step(&cfg, &d, step, Response::Updated);
    assert_eq!(
        action,
        ReconcileAction::Perform(Request::DeleteDeployment("b".to_string()))
    );
    let (_, action) = reconcile_step(&cfg, &d, step, Response::Updated);
    assert_eq!(
        action,
        ReconcileAction::Perform(Request::GetService("c".to_string()))
    );
}
