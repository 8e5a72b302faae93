use sidecar::evaluator::Feature;
use sidecar::metrics::{
    flag_evaluation_event, flag_evaluation_request, value_to_type, EventBuffer, FlagEvaluationEvent,
    RuntimeMetrics, Timestamp, TrackFlagEvaluationEvent, BATCH_SIZE,
};
use sidecar::store::FeatureData;
use sidecar::types::{FeatureRequestParams, RepositoryKey};
use sidecar::value::{Context, Kind, Value};

fn now() -> Timestamp {
    Timestamp {
        seconds: 1700000000,
        nanos: 5,
    }
}

fn event(feature_name: &str) -> FlagEvaluationEvent {
    let params = FeatureRequestParams {
        rk: RepositoryKey {
            owner_name: "lekkodev".to_string(),
            repo_name: "example".to_string(),
        },
        namespace: "ns".to_string(),
        feature: feature_name.to_string(),
    };
    let mut feature = Feature::default();
    feature.key = feature_name.to_string();
    let data = FeatureData {
        commit_sha: "commit".to_string(),
        feature_sha: "blob".to_string(),
        feature,
    };
    let mut context = Context::new();
    context.insert("b".to_string(), Value { kind: Some(Kind::BoolValue(true)) });
    context.insert("i".to_string(), Value { kind: Some(Kind::IntValue(3)) });
    context.insert("d".to_string(), Value { kind: Some(Kind::DoubleValue(1.5f64.to_bits())) });
    context.insert("s".to_string(), Value { kind: Some(Kind::StringValue("x".to_string())) });
    context.insert("n".to_string(), Value { kind: None });
    flag_evaluation_event(&params, &data, &context, &[0, 2, 1], now())
}

#[test]
fn value_types_are_named() {
    assert_eq!(value_to_type(&Value { kind: Some(Kind::BoolValue(false)) }), "bool");
    assert_eq!(value_to_type(&Value { kind: Some(Kind::IntValue(1)) }), "int");
    assert_eq!(value_to_type(&Value { kind: Some(Kind::DoubleValue(0)) }), "float");
    assert_eq!(value_to_type(&Value { kind: Some(Kind::StringValue(String::new())) }), "string");
    assert_eq!(value_to_type(&Value { kind: None }), "unknown");
}

#[test]
fn an_event_describes_the_evaluation() {
    let e = event("feat");
    assert_eq!(e.client_event_time.map(|t| (t.seconds, t.nanos)), Some((1700000000, 5)));
    assert_eq!(e.repo_key.as_ref().map(|k| k.repo_name.as_str()), Some("example"));
    assert_eq!(e.commit_sha, "commit");
    assert_eq!(e.feature_sha, "blob");
    assert_eq!(e.namespace_name, "ns");
    assert_eq!(e.feature_name, "feat");
    let keys: Vec<(String, String)> = e
        .context_keys
        .iter()
        .map(|k| (k.key.clone(), k.value_type.clone()))
        .collect();
    assert_eq!(
        keys,
        vec![
            ("b".to_string(), "bool".to_string()),
            ("i".to_string(), "int".to_string()),
            ("d".to_string(), "float".to_string()),
            ("s".to_string(), "string".to_string()),
            ("n".to_string(), "unknown".to_string()),
        ]
    );
    assert_eq!(e.result_path, vec![0, 2, 1]);
}

#[test]
fn a_full_batch_is_handed_back_at_once() {
    let mut buffer = EventBuffer::new();
    for i in 0..BATCH_SIZE - 1 {
        assert!(buffer.on_event(TrackFlagEvaluationEvent::new(event(&i.to_string()))).is_none());
    }
    let batch = buffer
        .on_event(TrackFlagEvaluationEvent::new(event("last")))
        .expect("a full batch");
    assert_eq!(batch.len(), BATCH_SIZE);
    assert!(buffer.on_tick().is_none());
    let request = flag_evaluation_request(batch, None);
    assert_eq!(request.events.len(), BATCH_SIZE);
    assert_eq!(request.events[0].feature_name, "0");
    assert_eq!(request.events[BATCH_SIZE - 1].feature_name, "last");
    assert_eq!(request.session_key, "");
}

#[test]
fn a_tick_hands_back_what_was_gathered_in_order() {
    let mut buffer = EventBuffer::new();
    assert!(buffer.on_tick().is_none());
    buffer.on_event(TrackFlagEvaluationEvent::new(event("a")));
    buffer.on_event(TrackFlagEvaluationEvent::new(event("b")));
    let batch = buffer.on_tick().expect("a batch");
    let request = flag_evaluation_request(batch, Some("session".to_string()));
    let names: Vec<&str> = request.events.iter().map(|e| e.feature_name.as_str()).collect();
    assert_eq!(names, vec!["a", "b"]);
    assert_eq!(request.session_key, "session");
    assert!(buffer.on_tick().is_none());
}

#[test]
fn runtime_metrics_name_the_startup_counter() {
    assert_eq!(RuntimeMetrics::new().startup_counter, "lekko_sidecar_startup_counter");
}
