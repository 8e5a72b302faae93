use sidecar::backend::{GetRepositoryContentsResponse, Namespace};
use sidecar::evaluator::Feature;
use sidecar::store::{filter_cache, FeatureInfo, FeatureKey, FeatureStore};

#[test]
fn test_filter() {
    let mut cache = FeatureStore::new();
    let input = [
        ("ns1", "feat1"),
        ("ns2", "feat2"),
        ("ns3", "feat3"),
        ("ns1", "feat4"),
        ("ns2", "feat5"),
    ];
    for (ns, feat) in input {
        cache.insert(
            FeatureKey {
                namespace: ns.to_owned(),
                feature: feat.to_owned(),
            },
            FeatureInfo {
                feature: Feature::default(),
                version: feat.to_owned(),
            },
        );
    }
    let res = filter_cache(&cache, "", "");
    assert_eq!(res.len(), 3);
    let res = filter_cache(&cache, "ns1", "");
    assert_eq!(res.len(), 1);
    assert_eq!(res[0].features.len(), 2);
    let res = filter_cache(&cache, "ns1", "feat1");
    assert_eq!(res.len(), 1);
    assert_eq!(res[0].features.len(), 1);
}

fn listed(name: &str, sha: &str) -> sidecar::backend::Feature {
    let mut f = Feature::default();
    f.key = name.to_string();
    sidecar::backend::Feature { name: name.to_string(), sha: sha.to_string(), feature: Some(f) }
}

#[test]
fn a_new_store_answers_the_last_listing_of_each_feature() {
    let contents = GetRepositoryContentsResponse {
        commit_sha: "c1".to_string(),
        namespaces: vec![
            Namespace { name: "a".to_string(), features: vec![listed("x", "1"), listed("y", "2"), listed("x", "3")] },
            Namespace { name: "b".to_string(), features: vec![listed("x", "4")] },
            Namespace { name: "a".to_string(), features: vec![listed("y", "5")] },
        ],
    };
    let store = sidecar::store::Store::new(contents);
    assert_eq!(store.get_version_local(), "c1");
    let get = |ns: &str, f: &str| {
        store.get_feature_local(sidecar::types::FeatureRequestParams {
            namespace: ns.to_string(),
            feature: f.to_string(),
            rk: sidecar::types::RepositoryKey { owner_name: String::new(), repo_name: String::new() },
        })
    };
    let ax = get("a", "x").unwrap();
    assert_eq!((ax.feature_sha.as_str(), ax.commit_sha.as_str(), ax.feature.key.as_str()), ("3", "c1", "x"));
    assert_eq!(get("a", "y").unwrap().feature_sha, "5");
    assert_eq!(get("b", "x").unwrap().feature_sha, "4");
    assert!(get("b", "y").is_none());
}

#[test]
fn unfiltered_listing_gives_the_contents_back() {
    let nss = vec![
        Namespace { name: "a".to_string(), features: vec![listed("x", "1"), listed("y", "2")] },
        Namespace { name: "b".to_string(), features: vec![listed("z", "3")] },
    ];
    let store = sidecar::store::create_feature_store(nss);
    let mut res: Vec<(String, String, String)> = filter_cache(&store, "", "")
        .into_iter()
        .flat_map(|ns| ns.features.into_iter().map(move |f| (ns.name.clone(), f.name, f.sha)))
        .collect();
    res.sort();
    let expected: Vec<(String, String, String)> = [("a", "x", "1"), ("a", "y", "2"), ("b", "z", "3")]
        .iter()
        .map(|(a, b, c)| (a.to_string(), b.to_string(), c.to_string()))
        .collect();
    assert_eq!(res, expected);
}
