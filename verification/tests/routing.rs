use sidecar::backend::{GetRepositoryContentsResponse, Namespace};
use sidecar::proxy::{developer_access_token_refusal, store_key};
use sidecar::remote_store::{first_feature, should_reload, Store, WatchEventKind};
use sidecar::service::{registration, route, Mode, RegisterRequest, Registration, Route};
use sidecar::status::Code;
use sidecar::types::{add_api_key, ConnectionCredentials, KeyedRequest, RepositoryKey};

fn repo() -> RepositoryKey {
    RepositoryKey { owner_name: "lekkodev".to_string(), repo_name: "example".to_string() }
}

#[test]
fn consistent_sidecars_proxy_with_the_callers_key() {
    match route(Mode::Consistent, add_api_key("req", "k".to_string())).ok().unwrap() {
        Route::Proxy(p) => {
            assert_eq!(p.message, "req");
            assert_eq!(p.api_keys, vec!["k".to_string()]);
        }
        _ => panic!("expected a proxied request"),
    }
    match route(Mode::Default, add_api_key("req", "k".to_string())).ok().unwrap() {
        Route::Local(m, k) => assert_eq!((m, k.as_str()), ("req", "k")),
        _ => panic!("expected a local evaluation"),
    }
    let err = route(Mode::Static, KeyedRequest::new("req")).err().unwrap();
    assert_eq!((err.code, err.message.as_str()), (Code::InvalidArgument, "no apikey header provided"));
}

#[test]
fn registrations_depend_on_the_mode() {
    let req = || RegisterRequest { repo_key: Some(repo()), namespace_list: vec!["ns".to_string()] };
    assert!(matches!(registration(Mode::Consistent, KeyedRequest::new(req())).unwrap(), Registration::Ignore));
    assert!(matches!(registration(Mode::Static, KeyedRequest::new(req())).unwrap(), Registration::Ignore));
    assert_eq!(registration(Mode::Default, KeyedRequest::new(req())).unwrap_err().message, "no apikey header provided");
    match registration(Mode::Default, add_api_key(req(), "k".to_string())).unwrap() {
        Registration::Register(rk, ns, k) => {
            assert_eq!(rk.repo_name, "example");
            assert_eq!(ns, vec!["ns".to_string()]);
            assert_eq!(k, "k");
        }
        Registration::Ignore => panic!("expected a registration"),
    }
}

#[test]
fn proxied_stores_are_keyed_by_api_key_and_repository() {
    let key = store_key(Some("k".to_string()), Some(&repo())).unwrap();
    assert_eq!((key.api_key.as_str(), key.owner_name.as_str(), key.repo_name.as_str()), ("k", "lekkodev", "example"));
    assert_eq!(store_key(None, Some(&repo())).unwrap_err().message, "no api key provided");
    assert_eq!(store_key(Some("k".to_string()), None).unwrap_err().message, "no repo key provided");
    let bootstrap = key.bootstrap_request();
    assert_eq!(bootstrap.api_key(), Some("k".to_string()));
    assert_eq!(bootstrap.message.namespace_name, "");
    let register = key.register_request("sha".to_string());
    assert_eq!(register.message.sidecar_version, "0.0");
    assert_eq!(register.message.initial_bootstrap_sha, "sha");
    assert_eq!(developer_access_token_refusal().message, "cannot issue tokens from plekko");
}

#[test]
fn only_changes_to_serialized_features_reload() {
    let paths = |ps: &[&str]| ps.iter().map(|p| Some(p.to_string())).collect::<Vec<_>>();
    assert_eq!(should_reload(WatchEventKind::Modify, &paths(&["/repo/ns/gen/proto/flag.proto.bin"])), Ok(true));
    assert_eq!(should_reload(WatchEventKind::Create, &paths(&["/repo/x", "/repo/ns/gen/proto/a-b.c.proto.bin"])), Ok(true));
    assert_eq!(should_reload(WatchEventKind::Remove, &paths(&["/repo/ns/flag.proto.bin"])), Ok(false));
    assert_eq!(should_reload(WatchEventKind::Modify, &paths(&["/repo/ns/gen/proto/flag.star"])), Ok(false));
    assert_eq!(should_reload(WatchEventKind::Other, &paths(&["/repo/ns/gen/proto/flag.proto.bin"])), Ok(false));
    assert_eq!(should_reload(WatchEventKind::Modify, &vec![None]), Ok(false));
}

fn contents(sha: &str) -> GetRepositoryContentsResponse {
    GetRepositoryContentsResponse { commit_sha: sha.to_string(), namespaces: vec![Namespace { name: "ns".to_string(), features: vec![] }] }
}

fn creds(session: &str) -> ConnectionCredentials {
    ConnectionCredentials { repo_key: repo(), api_key: "k".to_string(), session_key: session.to_string() }
}

#[test]
fn a_store_registers_once() {
    let mut store = Store::new(Some(contents("boot")));
    let req = store.register_request(repo(), vec!["ns".to_string()], "k".to_string());
    assert_eq!(req.message.initial_bootstrap_sha, "boot");
    assert_eq!(req.api_key(), Some("k".to_string()));
    assert!(store.complete_registration(contents("v1"), creds("s1")).is_ok());
    assert!(!store.needs_update(&"v1".to_string()));
    assert!(store.needs_update(&"v2".to_string()));
    let err = store.complete_registration(contents("v2"), creds("s2")).unwrap_err();
    assert_eq!(err.code, Code::AlreadyExists);
    assert!(!store.needs_update(&"v1".to_string()));
    assert_eq!(store.deregister_request().message.session_key, "s1");
    assert_eq!(store.version_request().message.session_key, "s1");
    store.apply_update(contents("v3"));
    assert!(!store.needs_update(&"v3".to_string()));
    assert_eq!(Store::registration_failed("down").code, Code::ResourceExhausted);
    assert_eq!(Store::registration_failed("down").message, "error when registering with lekko down");
}

#[test]
fn an_unbootstrapped_store_is_at_no_version() {
    let store = Store::new(None);
    assert!(!store.needs_update(&String::new()));
    assert_eq!(store.register_request(repo(), vec![], "k".to_string()).message.initial_bootstrap_sha, "");
}

#[test]
fn the_first_feature_with_contents_is_taken() {
    let mut f = sidecar::evaluator::Feature::default();
    f.key = "found".to_string();
    let resp = GetRepositoryContentsResponse {
        commit_sha: "c".to_string(),
        namespaces: vec![
            Namespace { name: "a".to_string(), features: vec![sidecar::backend::Feature { name: "x".to_string(), sha: String::new(), feature: None }] },
            Namespace { name: "b".to_string(), features: vec![sidecar::backend::Feature { name: "y".to_string(), sha: String::new(), feature: Some(f) }] },
        ],
    };
    assert_eq!(first_feature(&resp).unwrap().key, "found");
    let err = first_feature(&contents("c")).unwrap_err();
    assert_eq!((err.code, err.message.as_str()), (Code::NotFound, "feature not found"));
}

#[test]
fn the_feature_file_pattern_compiles_and_matches() {
    assert_eq!(sidecar::remote_store::is_proto_bin_file("/r/ns/gen/proto/f.proto.bin"), Ok(true));
    assert_eq!(sidecar::remote_store::is_proto_bin_file("/r/ns/gen/f.proto.bin"), Ok(false));
    assert_eq!(should_reload(WatchEventKind::Other, &vec![None]), Ok(false));
    assert_eq!(should_reload(WatchEventKind::Create, &vec![]), Ok(false));
}

#[test]
fn a_failed_registration_can_be_retried_and_a_later_one_is_ignored() {
    let mut store = Store::new(Some(contents("boot")));
    let err = store.register(repo(), "k".to_string(), Err("unreachable".to_string()), None).unwrap_err();
    assert_eq!(err.code, Code::ResourceExhausted);
    assert_eq!(err.message, "error when registering with lekko unreachable");
    assert!(!store.needs_update(&"boot".to_string()));
    let refused = sidecar::status::Status::internal("contents unavailable");
    let err = store.register(repo(), "k".to_string(), Ok("s0".to_string()), Some(Err(refused))).unwrap_err();
    assert_eq!((err.code, err.message.as_str()), (Code::Internal, "contents unavailable"));
    assert_eq!(store.deregister_request().message.session_key, "");
    assert!(store.register(repo(), "k".to_string(), Ok("s1".to_string()), Some(Ok(contents("v1")))).is_ok());
    assert!(!store.needs_update(&"v1".to_string()));
    assert_eq!(store.deregister_request().message.session_key, "s1");
    assert_eq!(store.version_request().message.repo_key.unwrap().repo_name, "example");
    let err = store.register(repo(), "k2".to_string(), Ok("s2".to_string()), Some(Ok(contents("v2")))).unwrap_err();
    assert_eq!(err.code, Code::AlreadyExists);
    assert_eq!(err.message, "register has already been called on this sidecar, ignoring register RPC");
    assert!(!store.needs_update(&"v1".to_string()));
    assert_eq!(store.deregister_request().message.session_key, "s1");
    assert_eq!(store.deregister_request().api_key(), Some("k".to_string()));
}
