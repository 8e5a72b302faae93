use sidecar::types::get_owner_and_repo;

#[test]
fn test_get_owner_and_repo_http() {
    match get_owner_and_repo("https://github.com/lekkodev/example") {
        Some(tuple) => assert_eq!(tuple, (String::from("lekkodev"), String::from("example"))),
        None => panic!("owner and repo should exist"),
    }

    match get_owner_and_repo("https://github.com/lekkodev/example.git") {
        Some(tuple) => assert_eq!(tuple, (String::from("lekkodev"), String::from("example"))),
        None => panic!("owner and repo should exist with .git suffix"),
    }
}

#[test]
fn test_get_owner_and_repo_ssh() {
    match get_owner_and_repo("git@github.com:lekkodev/example.git") {
        Some(tuple) => assert_eq!(tuple, (String::from("lekkodev"), String::from("example"))),
        None => panic!("owner and repo should exist"),
    }

    match get_owner_and_repo("git@github.com:lekkodev/example") {
        Some(tuple) => assert_eq!(tuple, (String::from("lekkodev"), String::from("example"))),
        None => panic!("owner and repo should exist without .git suffix"),
    }
}

#[test]
fn test_get_owner_and_repo_invalid() {
    match get_owner_and_repo("") {
        None => (),
        _ => panic!("empty string is invalid"),
    }

    match get_owner_and_repo("lekkodev-example") {
        None => (),
        _ => panic!("invalid url"),
    }
}

use sidecar::backend::RegisterClientRequest;
use sidecar::types::{add_api_key, override_api_key, ConnectionCredentials, KeyedRequest, RepositoryKey};

fn empty_repo_key() -> RepositoryKey {
    RepositoryKey {
        owner_name: "".to_string(),
        repo_name: "".to_string(),
    }
}

fn register_request(repo_key: Option<RepositoryKey>) -> RegisterClientRequest {
    RegisterClientRequest {
        repo_key,
        namespace_list: vec![],
        initial_bootstrap_sha: "".to_string(),
        sidecar_version: "".to_string(),
    }
}

#[test]
fn test_override_api_key_overrides_when_none() {
    let rk = empty_repo_key();
    let req = KeyedRequest::new(register_request(Some(rk.clone())));
    let cc = ConnectionCredentials {
        session_key: "".to_string(),
        repo_key: rk.clone(),
        api_key: "some".to_string(),
    };
    let new_req = override_api_key(req, &Some(cc));
    match new_req.api_key() {
        Some(key) => assert_eq!(key, "some"),
        None => panic!("failed to override api key"),
    }
}

#[test]
fn test_override_api_key_leaves_when_set() {
    let rk = empty_repo_key();
    let req = add_api_key(register_request(Some(rk.clone())), "sdk".to_string());
    let cc = ConnectionCredentials {
        session_key: "".to_string(),
        repo_key: rk.clone(),
        api_key: "some".to_string(),
    };
    let new_req = override_api_key(req, &Some(cc));
    match new_req.api_key() {
        Some(key) => assert_eq!(key, "sdk"),
        None => panic!("api key was unset"),
    }
}

#[test]
fn test_override_api_key_no_sidecar_apikey() {
    let req = add_api_key(register_request(None), "sdk".to_string());
    let new_req = override_api_key(req, &None);
    match new_req.api_key() {
        Some(key) => assert_eq!(key, "sdk"),
        None => panic!("api key was unset"),
    }
}

#[test]
fn override_api_key_without_any_key_stays_without() {
    let req = KeyedRequest::new(register_request(None));
    let new_req = override_api_key(req, &None);
    assert_eq!(new_req.api_key(), None);
    assert!(new_req.api_keys.is_empty());
}

#[test]
fn get_owner_and_repo_ignores_git_suffix() {
    assert_eq!(
        get_owner_and_repo("https://github.com/lekkodev/example.git"),
        get_owner_and_repo("https://github.com/lekkodev/example")
    );
    assert_eq!(
        get_owner_and_repo("a/b"),
        Some((String::from("a"), String::from("b")))
    );
}
