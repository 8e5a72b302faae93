use sidecar::backend::Namespace;
use sidecar::bootstrap::{feature_name, git_blob_hash, namespace_names, yaml_nests_shallowly, Bootstrap};
use sidecar::evaluator::Feature;
use sidecar::fallback::Fallback;
use sidecar::repo_dir::{DirEntry, FileEntry};
use sidecar::status::Code;

const HELLO_SHA: &str = "ce013625030ba8dba906f756967f9e9ca394464a";
const EMPTY_SHA: &str = "e69de29bb2d1d6434b8b29ae775ad8c2e48c5391";

fn feature(key: &str) -> Feature {
    let mut f = Feature::default();
    f.key = key.to_string();
    f
}

fn file(name: &str, bytes: &[u8]) -> DirEntry {
    DirEntry::File(FileEntry {
        name: Some(name.to_string()),
        contents: Ok(bytes.to_vec()),
        decoded: Ok(feature(name)),
    })
}

#[test]
fn git_blob_hash_matches_git() {
    assert_eq!(git_blob_hash(b"hello\n"), HELLO_SHA);
    assert_eq!(git_blob_hash(b""), EMPTY_SHA);
}

#[test]
fn libgit2_hashes_blobs_as_git_does() {
    let fallback = Fallback::new(Some("/repo".to_string()), None);
    assert_eq!(fallback.git_hash_object(b"hello\n").unwrap(), HELLO_SHA);
    assert_eq!(fallback.git_hash_object(b"").unwrap(), EMPTY_SHA);
}

#[test]
fn feature_names_strip_the_proto_bin_suffix() {
    assert_eq!(feature_name("flag.proto.bin"), Some("flag".to_string()));
    assert_eq!(feature_name("a.b.proto.bin"), Some("a.b".to_string()));
    assert_eq!(feature_name("flag.star"), None);
    assert_eq!(feature_name(".proto.bin"), Some(String::new()));
}

#[test]
fn namespace_names_need_strings() {
    let names = namespace_names(vec![Some("a".to_string()), Some("b".to_string())]).unwrap();
    assert_eq!(names, vec!["a".to_string(), "b".to_string()]);
    let err = namespace_names(vec![Some("a".to_string()), None]).unwrap_err();
    assert_eq!(err.code, Code::Internal);
    assert_eq!(err.message, "unknown namespace");
}

#[test]
fn bootstrap_paths() {
    let b = Bootstrap::new("/repo".to_string());
    assert_eq!(b.git_dir_path(), "/repo/.git");
    assert_eq!(b.default_root_yaml_path(), "/repo/lekko.root.yaml");
    assert_eq!(b.git_sync_contents_path(), "/repo/contents");
    assert_eq!(b.git_sync_root_yaml_path(), "/repo/contents/lekko.root.yaml");
}

#[test]
fn bootstrap_validation_prefers_the_repository_itself() {
    let mut b = Bootstrap::new("/repo".to_string());
    assert!(b.validate(Ok(true), true, true).is_ok());
    assert_eq!(b.root_yaml_path(), "/repo/lekko.root.yaml");
    assert_eq!(b.namespace_proto_path("ns"), "/repo/ns/gen/proto");

    let mut b = Bootstrap::new("/repo".to_string());
    assert!(b.validate(Ok(true), false, true).is_ok());
    assert_eq!(b.root_yaml_path(), "/repo/contents/lekko.root.yaml");
    assert_eq!(b.namespace_proto_path("ns"), "/repo/contents/ns/gen/proto");
}

#[test]
fn bootstrap_validation_errors() {
    let mut b = Bootstrap::new("/repo".to_string());
    let err = b.validate(Err("NotFound".to_string()), true, true).unwrap_err();
    assert_eq!(err.code, Code::Internal);
    assert_eq!(err.message, "path /repo/.git does not exist: NotFound");
    let err = b.validate(Ok(false), true, true).unwrap_err();
    assert_eq!(err.message, "path /repo/.git is not a directory");
    let err = b.validate(Ok(true), false, false).unwrap_err();
    assert_eq!(
        err.message,
        "paths /repo/lekko.root.yaml or /repo/contents/lekko.root.yaml do not exist"
    );
}

#[test]
fn bootstrap_loads_feature_files_in_order() {
    let b = Bootstrap::new("/repo".to_string());
    let ns = b
        .load_namespace(
            "ns",
            vec![
                file("b.proto.bin", b"hello\n"),
                DirEntry::NotAFile,
                file("README.md", b"x"),
                file("a.proto.bin", b""),
            ],
        )
        .unwrap();
    assert_eq!(ns.name, "ns");
    let got: Vec<(String, String, String)> = ns
        .features
        .iter()
        .map(|f| (f.name.clone(), f.sha.clone(), f.feature.as_ref().unwrap().key.clone()))
        .collect();
    assert_eq!(
        got,
        vec![
            ("b".to_string(), HELLO_SHA.to_string(), "b.proto.bin".to_string()),
            ("a".to_string(), EMPTY_SHA.to_string(), "a.proto.bin".to_string()),
        ]
    );
}

#[test]
fn the_first_unreadable_entry_fails_the_namespace() {
    let b = Bootstrap::new("/repo".to_string());
    let err = b
        .load_namespace(
            "ns",
            vec![
                file("a.proto.bin", b""),
                DirEntry::FileTypeError("denied".to_string()),
                DirEntry::ListError("gone".to_string()),
            ],
        )
        .unwrap_err();
    assert_eq!(err.code, Code::InvalidArgument);
    assert_eq!(err.message, "failed to get file type denied");

    let err = b
        .load_namespace("ns", vec![DirEntry::ListError("gone".to_string())])
        .unwrap_err();
    assert_eq!(err.message, "failed to read dir content: gone");

    let unreadable = DirEntry::File(FileEntry {
        name: Some("a.proto.bin".to_string()),
        contents: Err("denied".to_string()),
        decoded: Ok(Feature::default()),
    });
    let err = b.load_namespace("ns", vec![unreadable]).unwrap_err();
    assert_eq!(err.code, Code::Internal);
    assert_eq!(err.message, "failed to read path: denied");

    let nameless = DirEntry::File(FileEntry {
        name: None,
        contents: Ok(vec![]),
        decoded: Ok(Feature::default()),
    });
    let err = b.load_namespace("ns", vec![nameless]).unwrap_err();
    assert_eq!(err.message, "file name empty");

    let undecodable = DirEntry::File(FileEntry {
        name: Some("a.proto.bin".to_string()),
        contents: Ok(vec![1]),
        decoded: Err("bad wire type".to_string()),
    });
    let err = b.load_namespace("ns", vec![undecodable]).unwrap_err();
    assert_eq!(err.message, "decode feature from git-sync: bad wire type");
}

#[test]
fn an_undecodable_file_without_the_suffix_is_skipped() {
    let b = Bootstrap::new("/repo".to_string());
    let other = DirEntry::File(FileEntry {
        name: Some("notes.txt".to_string()),
        contents: Ok(vec![1]),
        decoded: Err("bad wire type".to_string()),
    });
    let ns = b.load_namespace("ns", vec![other]).unwrap();
    assert!(ns.features.is_empty());
}

#[test]
fn fallback_loads_like_bootstrap_with_libgit2() {
    let f = Fallback::new(Some("/repo".to_string()), None);
    assert!(f.enabled());
    assert_eq!(f.namespace_proto_path("ns"), "/repo/ns/gen/proto");
    let ns = f
        .load_namespace("ns", vec![file("flag.proto.bin", b"hello\n")])
        .unwrap();
    assert_eq!(ns.features.len(), 1);
    assert_eq!(ns.features[0].sha, HELLO_SHA);
}

fn namespace(name: &str) -> Namespace {
    Namespace {
        name: name.to_string(),
        features: vec![],
    }
}

#[test]
fn disabled_fallback_refuses_to_load() {
    let f = Fallback::new(None, None);
    assert!(!f.enabled());
    let err = f.load(Ok("sha".to_string()), vec![]).unwrap_err();
    assert_eq!(err.code, Code::InvalidArgument);
    assert_eq!(err.message, "fallback not enabled");
}

#[test]
fn load_gathers_namespaces_or_the_first_error() {
    let f = Fallback::new(Some("/repo".to_string()), None);
    let resp = f
        .load(Ok("sha".to_string()), vec![Ok(namespace("a")), Ok(namespace("b"))])
        .unwrap();
    assert_eq!(resp.commit_sha, "sha");
    let names: Vec<&str> = resp.namespaces.iter().map(|n| n.name.as_str()).collect();
    assert_eq!(names, vec!["a", "b"]);

    let b = Bootstrap::new("/repo".to_string());
    let err = b
        .load(
            Ok("sha".to_string()),
            vec![
                Ok(namespace("a")),
                Err(sidecar::status::Status::internal("first")),
                Err(sidecar::status::Status::internal("second")),
            ],
        )
        .unwrap_err();
    assert_eq!(err.message, "first");
    let err = b
        .load(Err(sidecar::status::Status::internal("no head")), vec![Ok(namespace("a"))])
        .unwrap_err();
    assert_eq!(err.message, "no head");
}

#[test]
fn root_yaml_lists_the_namespaces() {
    let names = sidecar::bootstrap::find_namespace_names("namespaces:\n  - default\n  - other\n");
    assert_eq!(names.unwrap().unwrap(), vec!["default".to_string(), "other".to_string()]);
    assert!(sidecar::bootstrap::find_namespace_names("").is_none());
    let err = sidecar::bootstrap::find_namespace_names("namespaces: [a").unwrap().unwrap_err();
    assert_eq!(err.code, Code::Internal);
    assert!(err.message.starts_with("failed to parse lekko yaml: "));
    let err = sidecar::bootstrap::find_namespace_names("namespaces:\n  - 1\n").unwrap().unwrap_err();
    assert_eq!(err.message, "unknown namespace");
    assert_eq!(sidecar::bootstrap::find_namespace_names("other: x\n").unwrap().unwrap(), Vec::<String>::new());
}

#[test]
fn yaml_nesting_bound_counts_indicator_columns_and_flow_openers() {
    // 2 * (2 + 1): the `:` at column 1 is the furthest indicator.
    assert!(yaml_nests_shallowly("a: 1"));
    // Long scalars without indicators do not count.
    assert!(yaml_nests_shallowly(&"x".repeat(1000)));
    // Compact sequences: the last `-` of 100 sits at column 198, so
    // 2 * (199 + 1) == 400 is still allowed; one more is not.
    assert!(yaml_nests_shallowly(&format!("{}a", "- ".repeat(100))));
    assert!(!yaml_nests_shallowly(&format!("{}a", "- ".repeat(101))));
    // A `-` that no blank follows is no indicator.
    assert!(yaml_nests_shallowly(&format!("{}a", "-x".repeat(300))));
    // Indicators in a comment do not count, unless the line holds a quote.
    assert!(yaml_nests_shallowly(&format!("a: 1 #{}", "- ".repeat(300))));
    assert!(!yaml_nests_shallowly(&format!("a: \"#\" #{}", "- ".repeat(300))));
    // A `#` that follows no blank opens no comment.
    assert!(!yaml_nests_shallowly(&format!("a#{}", "- ".repeat(300))));
    // Each line break, `\r` too, starts a new line.
    assert!(yaml_nests_shallowly(&"- x\r".repeat(300)));
    // 2 * (0 + 1) + 2 * 199 == 400; a flow opener more is refused.
    assert!(yaml_nests_shallowly(&vec!["["; 199].join("\n")));
    assert!(!yaml_nests_shallowly(&vec!["["; 200].join("\n")));
    // Openers in a comment do not count.
    assert!(yaml_nests_shallowly(&format!("# {}", "[".repeat(300))));
}

#[test]
fn a_long_flow_list_of_namespaces_loads() {
    let names: Vec<String> = (0..200).map(|i| format!("namespace-{i}")).collect();
    let text = format!("namespaces: [{}]\n", names.join(", "));
    assert_eq!(sidecar::bootstrap::find_namespace_names(&text).unwrap().unwrap(), names);
}

#[test]
fn root_yaml_reads_only_the_namespaces_key_of_the_first_document() {
    let text = "version: v1\nother: [x]\nnamespaces:\n  - a\n  - b\n---\nnamespaces: [c]\n";
    assert_eq!(
        sidecar::bootstrap::find_namespace_names(text).unwrap().unwrap(),
        vec!["a".to_string(), "b".to_string()]
    );
    assert_eq!(sidecar::bootstrap::find_namespace_names("namespaces: x\n").unwrap().unwrap(), Vec::<String>::new());
    assert_eq!(sidecar::bootstrap::find_namespace_names("- namespaces\n").unwrap().unwrap(), Vec::<String>::new());
    let err = sidecar::bootstrap::find_namespace_names("namespaces: [a, [b]]\n").unwrap().unwrap_err();
    assert_eq!(err.message, "unknown namespace");
}

#[test]
fn deeply_nested_root_yaml_is_refused_before_loading() {
    let deep: String = (0..300).map(|i| format!("{}- a\n", " ".repeat(i))).collect();
    let err = sidecar::bootstrap::find_namespace_names(&deep).unwrap().unwrap_err();
    assert_eq!(err.code, Code::Internal);
    assert_eq!(err.message, "failed to parse lekko yaml: nesting too deep");
    let nested = format!("namespaces:\n  - default # {}\n", "x".repeat(500));
    assert_eq!(
        sidecar::bootstrap::find_namespace_names(&nested).unwrap().unwrap(),
        vec!["default".to_string()]
    );
}

#[test]
fn fallback_reads_the_given_git_folder_else_the_clones_own() {
    let given = Fallback::new(Some("/repo".to_string()), Some("/elsewhere/.git".to_string()));
    assert_eq!(given.git_dir(), Some("/elsewhere/.git".to_string()));
    let own = Fallback::new(Some("/repo".to_string()), None);
    assert_eq!(own.git_dir(), Some("/repo/.git".to_string()));
    assert_eq!(Fallback::new(None, Some("/elsewhere/.git".to_string())).git_dir(), None);
}
