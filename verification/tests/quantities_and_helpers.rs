//! The quantity grammar and the small helpers.

use openfaas_functions_operato_rs::cli::operator_controller_run_args;
use openfaas_functions_operato_rs::docker_actions::{determin_image, determin_image_for_build};
use openfaas_functions_operato_rs::faas_client::{classify_status_code, BasicAuth,
    DeleteFunctionRequest, FaasResponse};
use openfaas_functions_operato_rs::operator::controller::UpdateStrategy;
use openfaas_functions_operato_rs::operator::deployment::DeploymentBuilder;
use openfaas_functions_operato_rs::quantity::is_valid_quantity;
use openfaas_functions_operato_rs::string_map::StringMap;
use openfaas_functions_operato_rs::util::remove_trailling_slash;
use openfaas_functions_operato_rs::utils::{a_key_is_missing_or_diffirent_btree,
    collect_missing_keys_btree, collect_missing_keys_vec, remove_whitespace};

#[test]
fn quantity_grammar_accepts_documented_forms() {
    assert!(is_valid_quantity("1e3"));
    assert!(is_valid_quantity("128M1"));
    assert!(is_valid_quantity("+1.5e-3"));
    assert!(is_valid_quantity("-0.5K+2"));
    assert!(is_valid_quantity("..e3"));
}

#[test]
fn quantity_grammar_rejects_other_forms() {
    assert!(!is_valid_quantity(""));
    assert!(!is_valid_quantity("123"));
    assert!(!is_valid_quantity("notaquantity"));
    assert!(!is_valid_quantity("1Mi"));
    assert!(!is_valid_quantity("e3"));
    assert!(!is_valid_quantity("1e"));
    assert!(!is_valid_quantity("1e+"));
    assert!(!is_valid_quantity("1x3"));
    assert!(!is_valid_quantity("1 e3"));
}

#[test]
fn whitespace_removal_and_trailing_slash() {
    assert_eq!(remove_whitespace(" a b\tc\n"), "abc");
    assert_eq!(remove_whitespace(""), "");
    assert_eq!(remove_trailling_slash("http://gw/"), "http://gw");
    assert_eq!(remove_trailling_slash("http://gw"), "http://gw");
    assert_eq!(remove_trailling_slash(""), "");
}

#[test]
fn missing_key_helpers() {
    let mut first = StringMap::new();
    first.insert("a".to_string(), "1".to_string());
    first.insert("b".to_string(), "2".to_string());
    let mut second = StringMap::new();
    second.insert("b".to_string(), "other".to_string());
    assert_eq!(
        collect_missing_keys_btree(&first, &second),
        vec!["a".to_string()]
    );
    // "a" is missing; report it
    assert_eq!(
        a_key_is_missing_or_diffirent_btree(&first, &second),
        Some("a".to_string())
    );
    // with "a" matching, "b" differs
    second.insert("a".to_string(), "1".to_string());
    assert_eq!(
        a_key_is_missing_or_diffirent_btree(&first, &second),
        Some("b".to_string())
    );
    second.insert("b".to_string(), "2".to_string());
    assert_eq!(a_key_is_missing_or_diffirent_btree(&first, &second), None);

    let wanted = vec!["s1".to_string(), "s2".to_string()];
    let have = vec!["s2".to_string()];
    assert_eq!(
        collect_missing_keys_vec(&wanted, &have),
        vec!["s1".to_string()]
    );
}

#[test]
fn string_map_is_canonical() {
    let mut a = StringMap::new();
    a.insert("x".to_string(), "1".to_string());
    a.insert("a".to_string(), "2".to_string());
    let mut b = StringMap::new();
    b.insert("a".to_string(), "2".to_string());
    b.insert("x".to_string(), "1".to_string());
    assert!(a.same_entries(&b));
    assert_eq!(a, b);
    assert_eq!(*a.key_at(0), "a");
    assert_eq!(*a.key_at(1), "x");
    // overriding keeps one entry per key
    a.insert("a".to_string(), "3".to_string());
    assert_eq!(a.len(), 2);
    assert_eq!(*a.get("a").unwrap(), "3");
    assert!(!a.same_entries(&b));
}

#[test]
fn run_args_spell_out_the_controller_command() {
    let args = operator_controller_run_args("functions".to_string(), UpdateStrategy::OneWay);
    assert_eq!(
        args,
        vec![
            "operator".to_string(),
            "controller".to_string(),
            "--functions-namespace".to_string(),
            "functions".to_string(),
            "--update-strategy".to_string(),
            "one-way".to_string(),
            "run".to_string(),
        ]
    );
    assert_eq!(UpdateStrategy::Strategic.as_kebab_str(), "strategic");
    assert_eq!(UpdateStrategy::default(), UpdateStrategy::OneWay);
}

#[test]
fn deployment_builder_names() {
    let b = DeploymentBuilder::new(
        "openfaas-functions-operator".to_string(),
        "openfaas-fn".to_string(),
        "img".to_string(),
        UpdateStrategy::OneWay,
    );
    assert_eq!(b.to_deployment_name(), "openfaas-functions-operator");
    assert_eq!(b.to_app_name(), "openfaas-functions-operator");
    assert_eq!(b.to_service_account_name(), "openfaas-functions-operator");
    assert_eq!(b.to_role_name(), "openfaas-functions-operator-role");
    assert_eq!(
        b.to_role_binding_name(),
        "openfaas-functions-operator-rolebinding"
    );
    assert_eq!(*b.to_labels().get("app").unwrap(), "openfaas-functions-operator");
}

#[test]
fn image_selection() {
    assert_eq!(
        determin_image_for_build("custom:1".to_string(), false),
        "custom:1"
    );
    assert_eq!(
        determin_image_for_build("custom:1".to_string(), true),
        "docker.io/jadkhaddad/openfaas_functions_operato_rs:0.1.0"
    );
    assert_eq!(
        determin_image("custom:1".to_string(), Some("2.0".to_string())),
        "docker.io/jadkhaddad/openfaas_functions_operato_rs:2.0"
    );
    assert_eq!(determin_image("custom:1".to_string(), None), "custom:1");
}

#[test]
fn gateway_helpers() {
    let auth = BasicAuth::new("user".to_string(), "pass".to_string());
    assert_eq!(auth.username, "user");
    assert_eq!(auth.password, "pass");
    let req = DeleteFunctionRequest::new("echo".to_string());
    assert_eq!(req.function_name, "echo");
    assert_eq!(classify_status_code(200), FaasResponse::Accepted);
    assert_eq!(classify_status_code(202), FaasResponse::Accepted);
    assert_eq!(classify_status_code(400), FaasResponse::BadRequest);
    assert_eq!(classify_status_code(404), FaasResponse::NotFound);
    assert_eq!(classify_status_code(500), FaasResponse::InternalServerError);
    assert_eq!(
        classify_status_code(503),
        FaasResponse::UnexpectedStatusCode(503)
    );
}
