//! The projector on concrete declarations.

use openfaas_functions_operato_rs::crds::defs::{CrdMeta, FunctionResources,
    FunctionSpecIntoDeploymentError, IntoQuantityError, OpenFaaSFunction, OpenFaasFunctionSpec};
use openfaas_functions_operato_rs::string_map::StringMap;

fn base_spec(service: &str, image: &str) -> OpenFaasFunctionSpec {
    OpenFaasFunctionSpec {
        service: service.to_string(),
        image: image.to_string(),
        namespace: None,
        env_process: None,
        env_vars: None,
        constraints: None,
        secrets: None,
        labels: None,
        annotations: None,
        limits: None,
        requests: None,
        read_only_root_filesystem: None,
        secrets_mount_path: None,
    }
}

fn decl(service: &str, image: &str) -> OpenFaaSFunction {
    OpenFaaSFunction {
        metadata: CrdMeta {
            name: Some(service.to_string()),
            namespace: Some("openfaas-fn".to_string()),
            uid: Some("uid-1".to_string()),
        },
        spec: base_spec(service, image),
        status: None,
    }
}

#[test]
fn happy_path_deployment_shape() {
    let spec = base_spec("echo", "ghcr.io/echo:1");
    let dep = spec.try_to_deployment("openfaas-fn").expect("projection succeeds");
    assert_eq!(dep.metadata.name, Some("echo".to_string()));
    // children land in the configured function namespace, not the spec's
    assert_eq!(dep.metadata.namespace, Some("openfaas-fn".to_string()));
    let dspec = dep.spec.expect("deployment spec present");
    assert_eq!(dspec.replicas, Some(1));
    let strategy = dspec.strategy.unwrap().rolling_update.unwrap();
    assert_eq!(strategy.max_surge, Some(1));
    assert_eq!(strategy.max_unavailable, Some(0));
    let labels = dspec.selector.match_labels.unwrap();
    assert_eq!(*labels.get("faas_function").unwrap(), "echo");
    let pod = dspec.template.spec.unwrap();
    assert_eq!(pod.containers.len(), 1);
    let c = &pod.containers[0];
    assert_eq!(c.name, "echo");
    assert_eq!(c.image, Some("ghcr.io/echo:1".to_string()));
    let ports = c.ports.as_ref().unwrap();
    assert_eq!(ports.len(), 1);
    assert_eq!(ports[0].name, Some("http".to_string()));
    assert_eq!(ports[0].container_port, 8080);
    assert_eq!(ports[0].protocol, Some("TCP".to_string()));
    let probe = c.liveness_probe.as_ref().unwrap().http_get.as_ref().unwrap();
    assert_eq!(probe.path, Some("/_/health".to_string()));
    assert_eq!(probe.port, 8080);
    assert_eq!(c.liveness_probe, c.readiness_probe);
    // env_vars and env_process both absent: the container environment is empty
    assert!(c.env.is_none());
    // read_only_root_filesystem absent: no volumes, no mounts
    assert!(c.volume_mounts.is_none());
    assert!(pod.volumes.is_none());
    assert!(pod.node_selector.is_none());
}

#[test]
fn service_shape_matches_contract() {
    let spec = base_spec("echo", "ghcr.io/echo:1");
    let svc = spec.to_service("openfaas-fn");
    assert_eq!(svc.metadata.name, Some("echo".to_string()));
    assert_eq!(svc.metadata.namespace, Some("openfaas-fn".to_string()));
    let sspec = svc.spec.unwrap();
    assert_eq!(*sspec.selector.unwrap().get("faas_function").unwrap(), "echo");
    let ports = sspec.ports.unwrap();
    assert_eq!(ports.len(), 1);
    assert_eq!(ports[0].name, Some("http".to_string()));
    assert_eq!(ports[0].port, 8080);
    assert_eq!(ports[0].target_port, Some(8080));
    assert_eq!(ports[0].protocol, Some("TCP".to_string()));
}

#[test]
fn owner_reference_fields() {
    let d = decl("echo", "img");
    let oref = d.controller_owner_ref().expect("name and uid present");
    assert_eq!(oref.api_version, "operato.rs/v1alpha1");
    assert_eq!(oref.kind, "OpenFaaSFunction");
    assert_eq!(oref.name, "echo");
    assert_eq!(oref.uid, "uid-1");
    assert_eq!(oref.controller, Some(true));
    assert_eq!(oref.block_owner_deletion, None);

    let mut without_uid = decl("echo", "img");
    without_uid.metadata.uid = None;
    assert!(without_uid.controller_owner_ref().is_none());
}

#[test]
fn owned_deployment_carries_owner_reference() {
    let d = decl("echo", "img");
    let dep = d.try_to_deployment("openfaas-fn").expect("projection succeeds");
    let orefs = dep.metadata.owner_references.unwrap();
    assert_eq!(orefs.len(), 1);
    assert_eq!(orefs[0].name, "echo");
    let svc = d.try_to_service("openfaas-fn").expect("projection succeeds");
    assert_eq!(svc.metadata.owner_references.unwrap().len(), 1);
}

#[test]
fn duplicate_secrets_project_once() {
    // secrets containing duplicates produce one projection per distinct name
    let mut spec = base_spec("s", "img");
    spec.secrets = Some(vec![
        "alpha".to_string(),
        "beta".to_string(),
        "alpha".to_string(),
    ]);
    let unique = spec.get_secrets_unique_vec();
    assert_eq!(unique, vec!["alpha".to_string(), "beta".to_string()]);
    let source = spec.to_secrets_projected_volume_source().unwrap();
    let sources = source.sources.unwrap();
    assert_eq!(sources.len(), 2);
    let first = sources[0].secret.as_ref().unwrap();
    assert_eq!(first.name, Some("alpha".to_string()));
    let items = first.items.as_ref().unwrap();
    assert_eq!(items.len(), 1);
    assert_eq!(items[0].key, "alpha");
    assert_eq!(items[0].path, "alpha");
}

#[test]
fn secrets_volume_mounted_read_only_at_default_path() {
    let mut spec = base_spec("s", "img");
    spec.secrets = Some(vec!["alpha".to_string()]);
    let mount = spec.to_secrets_volume_mount();
    assert_eq!(mount.name, "s-projected-secrets");
    assert_eq!(mount.mount_path, "/var/openfaas/secrets");
    assert_eq!(mount.read_only, Some(true));
    spec.secrets_mount_path = Some("/run/secrets".to_string());
    assert_eq!(spec.to_secrets_volume_mount().mount_path, "/run/secrets");
}

#[test]
fn constraints_without_separator_are_ignored() {
    let mut spec = base_spec("s", "img");
    spec.constraints = Some(vec![
        "zone==eu".to_string(),
        "justaword".to_string(),
        "arch == arm64".to_string(),
        "region == us east ".to_string(),
    ]);
    let selector = spec.to_node_selector().unwrap();
    assert_eq!(selector.len(), 3);
    assert_eq!(*selector.get("zone").unwrap(), "eu");
    // whitespace around the separator still parses
    assert_eq!(*selector.get("arch").unwrap(), "arm64");
    // only the surrounding whitespace is stripped; the interior stays
    assert_eq!(*selector.get("region").unwrap(), "us east");
}

#[test]
fn empty_constraints_give_no_selector() {
    let mut spec = base_spec("s", "img");
    assert!(spec.to_node_selector().is_none());
    spec.constraints = Some(vec![]);
    assert!(spec.to_node_selector().is_none());
}

#[test]
fn read_only_root_filesystem_controls_tmp_volume() {
    let mut spec = base_spec("s", "img");
    assert!(!spec.should_create_tmp_volume());
    assert!(spec.to_volumes().is_empty());
    spec.read_only_root_filesystem = Some(false);
    assert!(spec.to_volumes().is_empty());
    spec.read_only_root_filesystem = Some(true);
    let volumes = spec.to_volumes();
    assert_eq!(volumes.len(), 1);
    assert_eq!(volumes[0].name, "tmp");
    assert!(volumes[0].empty_dir);
    let mounts = spec.to_volume_mounts();
    assert_eq!(mounts[0].mount_path, "/tmp");
}

#[test]
fn environment_orders_fprocess_first() {
    let mut spec = base_spec("s", "img");
    spec.env_process = Some("./handler".to_string());
    let mut vars = StringMap::new();
    vars.insert("B_VAR".to_string(), "2".to_string());
    vars.insert("A_VAR".to_string(), "1".to_string());
    spec.env_vars = Some(vars);
    let env = spec.to_env();
    assert_eq!(env.len(), 3);
    assert_eq!(env[0].name, "fprocess");
    assert_eq!(env[0].value, Some("./handler".to_string()));
    assert_eq!(env[1].name, "A_VAR");
    assert_eq!(env[2].name, "B_VAR");
}

#[test]
fn invalid_cpu_quantity_is_rejected() {
    let mut spec = base_spec("s", "img");
    spec.limits = Some(FunctionResources {
        memory: None,
        cpu: Some("notaquantity".to_string()),
    });
    let err = spec.try_to_deployment("openfaas-fn").unwrap_err();
    assert_eq!(
        err,
        FunctionSpecIntoDeploymentError::Quantity(IntoQuantityError::CPU)
    );
}

#[test]
fn invalid_memory_takes_precedence_within_block() {
    let mut spec = base_spec("s", "img");
    spec.limits = Some(FunctionResources {
        memory: Some("bogus".to_string()),
        cpu: Some("alsobogus".to_string()),
    });
    let err = spec.try_to_deployment("openfaas-fn").unwrap_err();
    assert_eq!(
        err,
        FunctionSpecIntoDeploymentError::Quantity(IntoQuantityError::Memory)
    );
}

#[test]
fn valid_quantities_are_laid_out() {
    let mut spec = base_spec("s", "img");
    spec.limits = Some(FunctionResources {
        memory: Some("128M1".to_string()),
        cpu: Some("500m1".to_string()),
    });
    spec.requests = Some(FunctionResources {
        memory: None,
        cpu: Some("100m1".to_string()),
    });
    let dep = spec.try_to_deployment("openfaas-fn").expect("valid quantities accepted");
    let pod = dep.spec.unwrap().template.spec.unwrap();
    let resources = pod.containers[0].resources.as_ref().unwrap();
    let limits = resources.limits.as_ref().unwrap();
    assert_eq!(*limits.get("cpu").unwrap(), "500m1");
    assert_eq!(*limits.get("memory").unwrap(), "128M1");
    let requests = resources.requests.as_ref().unwrap();
    assert_eq!(*requests.get("cpu").unwrap(), "100m1");
    assert!(requests.get("memory").is_none());
}

#[test]
fn user_labels_never_override_identity_label() {
    let mut spec = base_spec("fn1", "img");
    let mut labels = StringMap::new();
    labels.insert("faas_function".to_string(), "impostor".to_string());
    labels.insert("team".to_string(), "a".to_string());
    spec.labels = Some(labels);
    let merged = spec.to_spec_meta_labels();
    assert_eq!(*merged.get("faas_function").unwrap(), "fn1");
    assert_eq!(*merged.get("team").unwrap(), "a");
}
