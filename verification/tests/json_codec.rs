//! The canonical JSON codec on concrete specs.

use openfaas_functions_operato_rs::crds::defs::{FunctionResources, OpenFaasFunctionSpec};
use openfaas_functions_operato_rs::k8s::{Deployment, DeploymentStatus, ObjectMeta};
use openfaas_functions_operato_rs::string_map::StringMap;

fn base_spec(service: &str, image: &str) -> OpenFaasFunctionSpec {
    OpenFaasFunctionSpec {
        service: service.to_string(),
        image: image.to_string(),
        namespace: None,
        env_process: None,
        env_vars: None,
        constraints: None,
        secrets: None,
        labels: None,
        annotations: None,
        limits: None,
        requests: None,
        read_only_root_filesystem: None,
        secrets_mount_path: None,
    }
}

#[test]
fn minimal_spec_serializes_exactly() {
    let spec = base_spec("echo", "img:1");
    let mut expected = String::new();
    expected.push_str("{\"service\":\"echo\",\"image\":\"img:1\",\"namespace\":null,");
    expected.push_str("\"envProcess\":null,\"envVars\":null,\"constraints\":null,");
    expected.push_str("\"secrets\":null,\"labels\":null,\"annotations\":null,");
    expected.push_str("\"limits\":null,\"requests\":null,\"readOnlyRootFilesystem\":null,");
    expected.push_str("\"secretsMountPath\":null}");
    assert_eq!(spec.to_json_string(), expected);
}

#[test]
fn full_spec_serializes_exactly() {
    let mut spec = base_spec("fn1", "img");
    spec.namespace = Some("openfaas-fn".to_string());
    spec.env_process = Some("./run".to_string());
    let mut vars = StringMap::new();
    vars.insert("K".to_string(), "V".to_string());
    spec.env_vars = Some(vars);
    spec.constraints = Some(vec!["a==b".to_string()]);
    spec.secrets = Some(vec!["s1".to_string()]);
    spec.limits = Some(FunctionResources {
        memory: Some("1G1".to_string()),
        cpu: None,
    });
    spec.read_only_root_filesystem = Some(true);
    let mut expected = String::new();
    expected.push_str("{\"service\":\"fn1\",\"image\":\"img\",\"namespace\":\"openfaas-fn\",");
    expected.push_str("\"envProcess\":\"./run\",\"envVars\":{\"K\":\"V\"},");
    expected.push_str("\"constraints\":[\"a==b\"],\"secrets\":[\"s1\"],\"labels\":null,");
    expected.push_str("\"annotations\":null,\"limits\":{\"memory\":\"1G1\",\"cpu\":null},");
    expected.push_str("\"requests\":null,\"readOnlyRootFilesystem\":true,");
    expected.push_str("\"secretsMountPath\":null}");
    assert_eq!(spec.to_json_string(), expected);
}

#[test]
fn escapes_quotes_backslashes_and_controls() {
    let mut spec = base_spec("q", "img");
    spec.env_process = Some("say \"hi\"\\\n".to_string());
    let json = spec.to_json_string();
    assert!(json.contains("\"envProcess\":\"say \\\"hi\\\"\\\\\\u000a\""));
}

#[test]
fn roundtrip_restores_the_spec() {
    let mut spec = base_spec("fn1", "img");
    spec.namespace = Some("ns".to_string());
    spec.env_process = Some("tabs\tand \"quotes\"".to_string());
    let mut labels = StringMap::new();
    labels.insert("team".to_string(), "x".to_string());
    spec.labels = Some(labels);
    let mut vars = StringMap::new();
    vars.insert("B_VAR".to_string(), "2".to_string());
    vars.insert("A_VAR".to_string(), "va\"l\\ue".to_string());
    spec.env_vars = Some(vars);
    spec.secrets = Some(vec!["a".to_string(), "b".to_string()]);
    spec.requests = Some(FunctionResources {
        memory: Some("1M1".to_string()),
        cpu: Some("2m2".to_string()),
    });
    spec.read_only_root_filesystem = Some(false);
    let json = spec.to_json_string();
    let back = OpenFaasFunctionSpec::from_json_str(json.as_str()).expect("own output decodes");
    assert_eq!(back, spec);
}

#[test]
fn only_the_canonical_form_decodes() {
    // the same content under another field order or with extra whitespace is
    // not the encoder's output, so the decoder treats it as corrupted
    let mut reordered = String::new();
    reordered.push_str("{\"image\":\"img:1\",\"service\":\"echo\",\"namespace\":null,");
    reordered.push_str("\"envProcess\":null,\"envVars\":null,\"constraints\":null,");
    reordered.push_str("\"secrets\":null,\"labels\":null,\"annotations\":null,");
    reordered.push_str("\"limits\":null,\"requests\":null,\"readOnlyRootFilesystem\":null,");
    reordered.push_str("\"secretsMountPath\":null}");
    assert!(OpenFaasFunctionSpec::from_json_str(&reordered).is_none());
    let mut spaced = String::new();
    spaced.push_str("{\"service\": \"echo\",\"image\":\"img:1\",\"namespace\":null,");
    spaced.push_str("\"envProcess\":null,\"envVars\":null,\"constraints\":null,");
    spaced.push_str("\"secrets\":null,\"labels\":null,\"annotations\":null,");
    spaced.push_str("\"limits\":null,\"requests\":null,\"readOnlyRootFilesystem\":null,");
    spaced.push_str("\"secretsMountPath\":null}");
    assert!(OpenFaasFunctionSpec::from_json_str(&spaced).is_none());
}

#[test]
fn corrupted_annotation_is_rejected() {
    let spec = base_spec("echo", "img");
    let json = spec.to_json_string();
    assert!(OpenFaasFunctionSpec::from_json_str("").is_none());
    assert!(OpenFaasFunctionSpec::from_json_str("{}").is_none());
    assert!(OpenFaasFunctionSpec::from_json_str(&json[..json.len() - 1]).is_none());
    let mut padded = json.clone();
    padded.push(' ');
    assert!(OpenFaasFunctionSpec::from_json_str(&padded).is_none());
}

fn deployment_with_annotation(spec: &OpenFaasFunctionSpec) -> Deployment {
    let mut annotations = StringMap::new();
    annotations.insert(
        "openfaasfunctions.operato.rs/last-applied-spec".to_string(),
        spec.to_json_string(),
    );
    Deployment {
        metadata: ObjectMeta {
            name: Some(spec.service.clone()),
            namespace: None,
            labels: None,
            annotations: Some(annotations),
            owner_references: None,
        },
        spec: None,
        status: Some(DeploymentStatus {
            ready_replicas: Some(1),
        }),
    }
}

#[test]
fn drift_detection_compares_the_applied_spec() {
    let spec = base_spec("echo", "img:1");
    let dep = deployment_with_annotation(&spec);
    // no change: no recreation
    assert!(!spec.deployment_needs_recreation(&dep));
    // any spec change recreates
    let mut changed = spec.clone();
    changed.image = "img:2".to_string();
    assert!(changed.deployment_needs_recreation(&dep));
    // a missing or corrupted annotation recreates
    let mut bare = dep.clone();
    bare.metadata.annotations = None;
    assert!(spec.deployment_needs_recreation(&bare));
}
