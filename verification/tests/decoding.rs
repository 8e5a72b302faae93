use sidecar::status::Code;
use sidecar::types::{bool_from_any, check_repo_key, int_from_any, string_from_any, RepositoryKey};
use sidecar::value::Any;

fn any_of(bytes: Vec<u8>) -> Any {
    Any {
        type_url: String::from("type.googleapis.com/google.protobuf.BoolValue"),
        value: bytes,
    }
}

#[test]
fn bool_from_any_decodes_the_wrapped_bool() {
    assert!(bool_from_any(&any_of(vec![0x08, 0x01])).unwrap());
    assert!(!bool_from_any(&any_of(vec![])).unwrap());
}

#[test]
fn int_from_any_decodes_the_wrapped_int() {
    assert_eq!(int_from_any(&any_of(vec![0x08, 0x2a])).unwrap(), 42);
    assert_eq!(int_from_any(&any_of(vec![0x08, 0x96, 0x01])).unwrap(), 150);
}

#[test]
fn string_from_any_decodes_the_wrapped_string() {
    assert_eq!(string_from_any(&any_of(vec![0x0a, 0x02, b'h', b'i'])).unwrap(), "hi");
}

#[test]
fn truncated_bytes_are_an_internal_error() {
    let err = bool_from_any(&any_of(vec![0x08])).unwrap_err();
    assert_eq!(err.code, Code::Internal);
    let err = string_from_any(&any_of(vec![0x0a, 0x05, b'h'])).unwrap_err();
    assert_eq!(err.code, Code::Internal);
}

fn repo(owner: &str, name: &str) -> RepositoryKey {
    RepositoryKey {
        owner_name: owner.to_string(),
        repo_name: name.to_string(),
    }
}

#[test]
fn check_repo_key_accepts_the_served_repository() {
    assert!(check_repo_key(&repo("lekkodev", "example"), Some(&repo("lekkodev", "example"))).is_ok());
}

#[test]
fn check_repo_key_refuses_a_missing_or_other_repository() {
    let err = check_repo_key(&repo("lekkodev", "example"), None).unwrap_err();
    assert_eq!(err.code, Code::InvalidArgument);
    assert_eq!(err.message, "no repo key provided");
    let err = check_repo_key(&repo("lekkodev", "example"), Some(&repo("lekkodev", "other"))).unwrap_err();
    assert_eq!(err.code, Code::InvalidArgument);
    assert_eq!(
        err.message,
        "registration mismatch: requested_repo: RepositoryKey { owner_name: \"lekkodev\", repo_name: \"other\" }, vs. repo: RepositoryKey { owner_name: \"lekkodev\", repo_name: \"example\" }"
    );
}

#[test]
fn mismatch_messages_escape_names_as_debug_does() {
    let odd = repo("o\"w\\n\ner\t\u{1}", "é'x\0");
    let err = check_repo_key(&repo("lekkodev", "example"), Some(&odd)).unwrap_err();
    let expected = format!(
        "registration mismatch: requested_repo: {:?}, vs. repo: {:?}",
        odd,
        repo("lekkodev", "example")
    );
    assert_eq!(err.message, expected);
}
