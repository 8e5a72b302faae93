use sidecar::backend::{Feature as Entry, GetRepositoryContentsRequest, GetRepositoryContentsResponse, Namespace, RegisterClientRequest};
use sidecar::config_service::{GetValueRequest, Service as ConfigService};
use sidecar::distro_service::Service as DistroService;
use sidecar::evaluator::{evaluate, Constraint, EvalContext, Feature, FeatureType, Tree};
use sidecar::metrics::Timestamp;
use sidecar::rules_v3::{Atom, ComparisonOperator, Rule, RuleKind};
use sidecar::status::Code;
use sidecar::store::Store;
use sidecar::types::{add_api_key, ConnectionCredentials, KeyedRequest, Mode, PublicRepositoryKey, RepositoryKey};
use sidecar::value::{Any, Context, Kind, ProtoKind, ProtoValue, Value};

fn any(bytes: Vec<u8>) -> Any {
    Any { type_url: "type.googleapis.com/google.protobuf.BoolValue".to_string(), value: bytes }
}

fn bool_any(b: bool) -> Any {
    if b { any(vec![0x08, 0x01]) } else { any(vec![]) }
}

fn constant(b: bool) -> Rule {
    Rule { rule: Some(RuleKind::BoolConst(b)) }
}

fn city_is(city: &str) -> Rule {
    Rule {
        rule: Some(RuleKind::Atom(Atom {
            context_key: "city".to_string(),
            comparison_value: Some(ProtoValue { kind: Some(ProtoKind::StringValue(city.to_string())) }),
            comparison_operator: ComparisonOperator::Equals,
        })),
    }
}

fn constraint(rule: Rule, value: Option<Any>, children: Vec<Constraint>) -> Constraint {
    Constraint { value, rule_ast_new: Some(rule), constraints: children }
}

/// A boolean feature: false by default, true in Berlin.
fn berlin_flag(key: &str, feature_type: FeatureType) -> Feature {
    Feature {
        key: key.to_string(),
        description: String::new(),
        tree: Some(Tree {
            default: Some(bool_any(false)),
            constraints: vec![
                constraint(city_is("Paris"), Some(any(vec![0x08, 0x02])), vec![]),
                constraint(city_is("Berlin"), Some(bool_any(true)), vec![]),
            ],
        }),
        feature_type,
    }
}

fn context(city: &str) -> Context {
    let mut c = Context::new();
    c.insert("city".to_string(), Value { kind: Some(Kind::StringValue(city.to_string())) });
    c
}

fn eval_context() -> EvalContext {
    EvalContext { namespace: "ns".to_string(), feature_name: "flag".to_string() }
}

#[test]
fn evaluation_takes_the_first_passing_constraint() {
    let f = berlin_flag("flag", FeatureType::Bool);
    let (value, path) = evaluate(&f, &context("Berlin"), &eval_context()).unwrap();
    assert_eq!(value.value, vec![0x08, 0x01]);
    assert_eq!(path, vec![1]);
    let (value, path) = evaluate(&f, &context("Rome"), &eval_context()).unwrap();
    assert_eq!(value.value, Vec::<u8>::new());
    assert!(path.is_empty());
}

#[test]
fn nested_constraints_extend_the_path() {
    let child = constraint(constant(true), Some(bool_any(true)), vec![]);
    let parent = constraint(constant(true), Some(bool_any(false)), vec![constraint(constant(false), None, vec![]), child]);
    let f = Feature {
        key: "flag".to_string(),
        description: String::new(),
        tree: Some(Tree { default: None, constraints: vec![constraint(constant(false), None, vec![]), parent] }),
        feature_type: FeatureType::Bool,
    };
    let (value, path) = evaluate(&f, &Context::new(), &eval_context()).unwrap();
    assert_eq!(value.value, vec![0x08, 0x01]);
    assert_eq!(path, vec![1, 1]);
}

#[test]
fn a_passing_node_without_value_gives_the_default() {
    let f = Feature {
        key: "flag".to_string(),
        description: String::new(),
        tree: Some(Tree { default: Some(bool_any(true)), constraints: vec![constraint(constant(true), None, vec![])] }),
        feature_type: FeatureType::Bool,
    };
    let (value, path) = evaluate(&f, &Context::new(), &eval_context()).unwrap();
    assert_eq!(value.value, vec![0x08, 0x01]);
    assert!(path.is_empty());
    let f = Feature { tree: None, ..Feature::default() };
    assert_eq!(evaluate(&f, &Context::new(), &eval_context()).unwrap_err().message, "empty tree");
}

fn store() -> Store {
    Store::new(GetRepositoryContentsResponse {
        commit_sha: "commit".to_string(),
        namespaces: vec![
            Namespace {
                name: "ns".to_string(),
                features: vec![
                    Entry { name: "flag".to_string(), sha: "sha1".to_string(), feature: Some(berlin_flag("flag", FeatureType::Bool)) },
                    Entry { name: "legacy".to_string(), sha: "sha2".to_string(), feature: Some(berlin_flag("legacy", FeatureType::Unspecified)) },
                ],
            },
            Namespace {
                name: "other".to_string(),
                features: vec![Entry { name: "flag".to_string(), sha: "sha3".to_string(), feature: Some(berlin_flag("flag", FeatureType::Int)) }],
            },
        ],
    })
}

fn repo() -> RepositoryKey {
    RepositoryKey { owner_name: "lekkodev".to_string(), repo_name: "example".to_string() }
}

fn config_service(tracks_metrics: bool) -> ConfigService {
    ConfigService { store: store(), mode: Mode::Default, tracks_metrics, repo_key: repo() }
}

fn request(namespace: &str, key: &str, city: &str) -> GetValueRequest {
    GetValueRequest {
        repo_key: Some(PublicRepositoryKey { owner_name: "lekkodev".to_string(), repo_name: "example".to_string() }),
        namespace: namespace.to_string(),
        key: key.to_string(),
        context: context(city),
    }
}

fn now() -> Timestamp {
    Timestamp { seconds: 1, nanos: 2 }
}

#[test]
fn get_bool_value_evaluates_locally() {
    let service = config_service(true);
    let ev = service.get_bool_value(&request("ns", "flag", "Berlin"), now()).unwrap();
    assert!(ev.value);
    let event = ev.event.expect("metrics are tracked");
    assert_eq!(event.commit_sha, "commit");
    assert_eq!(event.feature_sha, "sha1");
    assert_eq!(event.result_path, vec![1]);
    let ev = config_service(false).get_bool_value(&request("ns", "flag", "Rome"), now()).unwrap();
    assert!(!ev.value);
    assert!(ev.event.is_none());
}

#[test]
fn a_feature_of_unspecified_type_has_any_type() {
    let service = config_service(false);
    assert!(service.get_bool_value(&request("ns", "legacy", "Berlin"), now()).unwrap().value);
    assert_eq!(service.get_int_value(&request("ns", "legacy", "Paris"), now()).unwrap().value, 2);
}

#[test]
fn config_service_errors() {
    let service = config_service(false);
    let err = service.get_bool_value(&request("ns", "missing", "Berlin"), now()).err().unwrap();
    assert_eq!((err.code, err.message.as_str()), (Code::InvalidArgument, "feature not found"));
    let err = service.get_int_value(&request("ns", "flag", "Berlin"), now()).err().unwrap();
    assert_eq!(err.code, Code::InvalidArgument);
    assert_eq!(err.message, "type mismatch: requested feature is not of type \"FEATURE_TYPE_INT\"");
    let mut no_repo = request("ns", "flag", "Berlin");
    no_repo.repo_key = None;
    let err = service.get_bool_value(&no_repo, now()).err().unwrap();
    assert_eq!(err.message, "no repo key provided");
    let err = service.get_string_value(&request("ns", "legacy", "Berlin"), now()).err().unwrap();
    assert_eq!(err.code, Code::Internal);
}

#[test]
fn proto_values_are_sent_twice() {
    let service = config_service(false);
    let ev = service.get_proto_value(&request("ns", "legacy", "Berlin"), now()).unwrap();
    assert_eq!(ev.value.0.value, vec![0x08, 0x01]);
    assert_eq!(ev.value.1.value, vec![0x08, 0x01]);
    assert_eq!(ev.value.0.type_url, ev.value.1.type_url);
}

#[test]
fn registration_must_name_the_served_repository() {
    let service = config_service(false);
    assert!(service.register(Some(&PublicRepositoryKey { owner_name: "lekkodev".to_string(), repo_name: "example".to_string() })).is_ok());
    let err = service.register(Some(&PublicRepositoryKey { owner_name: "lekkodev".to_string(), repo_name: "other".to_string() })).unwrap_err();
    assert_eq!(err.code, Code::InvalidArgument);
    assert_eq!(service.register(None).unwrap_err().message, "no repo key provided");
}

fn distro(conn_creds: Option<ConnectionCredentials>) -> DistroService {
    DistroService { conn_creds, store: store(), repo_key: repo(), sidecar_version: "1.2".to_string() }
}

fn creds() -> ConnectionCredentials {
    ConnectionCredentials { repo_key: repo(), api_key: "sidecar".to_string(), session_key: "s".to_string() }
}

#[test]
fn distribution_answers_from_the_store() {
    let d = distro(None);
    assert_eq!(d.get_repository_version(Some(&repo())).unwrap(), "commit");
    let req = GetRepositoryContentsRequest { repo_key: Some(repo()), session_key: String::new(), namespace_name: "ns".to_string(), feature_name: String::new() };
    let resp = d.get_repository_contents(&req).unwrap();
    assert_eq!(resp.commit_sha, "commit");
    assert_eq!(resp.namespaces.len(), 1);
    assert_eq!(resp.namespaces[0].features.len(), 2);
    let all = GetRepositoryContentsRequest { repo_key: Some(repo()), session_key: String::new(), namespace_name: String::new(), feature_name: String::new() };
    assert_eq!(d.get_repository_contents(&all).unwrap().namespaces.len(), 2);
    let other = RepositoryKey { owner_name: "x".to_string(), repo_name: "y".to_string() };
    assert_eq!(d.get_repository_version(Some(&other)).unwrap_err().code, Code::InvalidArgument);
    assert_eq!(d.get_repository_version(None).unwrap_err().message, "no repo key provided");
    assert_eq!(d.get_developer_access_token().code, Code::Unimplemented);
}

fn registration(repo_key: Option<RepositoryKey>) -> RegisterClientRequest {
    RegisterClientRequest { repo_key, namespace_list: vec!["ns".to_string()], initial_bootstrap_sha: "abc".to_string(), sidecar_version: "sdk-".to_string() }
}

#[test]
fn distribution_forwards_only_with_an_api_key() {
    assert!(distro(None).forward(KeyedRequest::new(1)).is_none());
    let forwarded = distro(None).forward(add_api_key(1, "client".to_string())).unwrap();
    assert_eq!(forwarded.api_key(), Some("client".to_string()));
    let forwarded = distro(Some(creds())).forward(KeyedRequest::new(1)).unwrap();
    assert_eq!(forwarded.api_key(), Some("sidecar".to_string()));
    let forwarded = distro(Some(creds())).forward(add_api_key(1, "client".to_string())).unwrap();
    assert_eq!(forwarded.api_key(), Some("client".to_string()));
}

#[test]
fn client_registrations_carry_the_sidecar_version() {
    let r = distro(Some(creds())).register_client(KeyedRequest::new(registration(Some(repo())))).unwrap().unwrap();
    assert_eq!(r.message.sidecar_version, "sdk-1.2");
    assert_eq!(r.message.initial_bootstrap_sha, "abc");
    assert_eq!(r.api_key(), Some("sidecar".to_string()));
    assert!(distro(None).register_client(KeyedRequest::new(registration(Some(repo())))).unwrap().is_none());
    let err = distro(Some(creds())).register_client(KeyedRequest::new(registration(None))).unwrap_err();
    assert_eq!(err.message, "no repo key provided");
}

#[test]
fn a_feature_without_constraints_gives_its_default() {
    let f = Feature {
        key: "flag".to_string(),
        description: String::new(),
        tree: Some(Tree { default: Some(bool_any(true)), constraints: vec![] }),
        feature_type: FeatureType::Bool,
    };
    let (value, path) = evaluate(&f, &context("Berlin"), &eval_context()).unwrap();
    assert_eq!(value.value, vec![0x08, 0x01]);
    assert!(path.is_empty());
}

#[test]
fn the_store_holds_every_listed_feature() {
    let s = store();
    for (ns, feature, sha) in [("ns", "flag", "sha1"), ("ns", "legacy", "sha2"), ("other", "flag", "sha3")] {
        let data = s
            .get_feature_local(sidecar::types::FeatureRequestParams { rk: repo(), namespace: ns.to_string(), feature: feature.to_string() })
            .expect("listed feature");
        assert_eq!(data.feature_sha, sha);
        assert_eq!(data.commit_sha, "commit");
    }
    assert!(s
        .get_feature_local(sidecar::types::FeatureRequestParams { rk: repo(), namespace: "other".to_string(), feature: "legacy".to_string() })
        .is_none());
}
