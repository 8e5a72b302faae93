use sidecar::evaluator::EvalContext;
use sidecar::functions::bucket;
use sidecar::rules_v3::Bucket;
use sidecar::value::{Context, Kind, Value};

fn eval_contexts() -> Vec<EvalContext> {
    vec![
        EvalContext {
            namespace: String::from("ns_1"),
            feature_name: String::from("feature_1"),
        },
        EvalContext {
            namespace: String::from("ns_2"),
            feature_name: String::from("feature_2"),
        },
    ]
}

fn fifty_percent() -> Bucket {
    Bucket {
        context_key: String::from("key"),
        threshold: 50000,
    }
}

fn context_of(kind: Kind) -> Context {
    let mut context = Context::new();
    context.insert(String::from("key"), Value { kind: Some(kind) });
    context
}

fn assert_bucket(expected: bool, actual: bool, context_value: &str, eval_context: &EvalContext) {
    assert_eq!(
        expected, actual,
        "key: {}/{}/{}:{}, expected: {}, actual: {}",
        eval_context.namespace, eval_context.feature_name, "key", context_value, expected, actual
    );
}

#[test]
fn test_bucket_unsupported_type() {
    let eval_contexts = eval_contexts();
    let context = context_of(Kind::BoolValue(false));
    assert!(bucket(&fifty_percent(), &context, &eval_contexts[0]).is_err());
}

#[test]
fn test_bucket_ints() {
    let test_cases: Vec<Vec<(i64, bool)>> = vec![
        vec![
            (1, false),
            (2, false),
            (3, true),
            (4, false),
            (5, true),
            (101, true),
            (102, true),
            (103, false),
            (104, false),
            (105, true),
        ],
        vec![
            (1, false),
            (2, true),
            (3, false),
            (4, false),
            (5, true),
            (101, true),
            (102, true),
            (103, false),
            (104, true),
            (105, true),
        ],
    ];
    for (eval_i, eval_context) in eval_contexts().iter().enumerate() {
        for (context_value, expected) in test_cases[eval_i].iter() {
            let context = context_of(Kind::IntValue(*context_value));
            match bucket(&fifty_percent(), &context, eval_context) {
                Ok(res) => assert_bucket(*expected, res, &context_value.to_string(), eval_context),
                _ => panic!("unexpected error"),
            }
        }
    }
}

#[test]
fn test_bucket_doubles() {
    let test_cases: Vec<Vec<(f64, bool)>> = vec![
        vec![
            (3.1415, false),
            (2.7182, false),
            (1.6180, true),
            (6.6261, true),
            (6.0221, false),
            (2.9979, true),
            (6.6730, false),
            (1.3807, true),
            (1.4142, true),
            (2.0000, false),
        ],
        vec![
            (3.1415, true),
            (2.7182, false),
            (1.6180, true),
            (6.6261, false),
            (6.0221, false),
            (2.9979, false),
            (6.6730, false),
            (1.3807, false),
            (1.4142, true),
            (2.0000, false),
        ],
    ];
    for (eval_i, eval_context) in eval_contexts().iter().enumerate() {
        for (context_value, expected) in test_cases[eval_i].iter() {
            let context = context_of(Kind::DoubleValue(context_value.to_bits()));
            match bucket(&fifty_percent(), &context, eval_context) {
                Ok(res) => assert_bucket(*expected, res, &context_value.to_string(), eval_context),
                _ => panic!("unexpected error"),
            }
        }
    }
}

#[test]
fn test_bucket_strings() {
    let test_cases: Vec<Vec<(&str, bool)>> = vec![
        vec![
            ("hello", false),
            ("world", false),
            ("i", true),
            ("am", true),
            ("a", true),
            ("unit", false),
            ("test", true),
            ("case", true),
            ("for", false),
            ("bucket", false),
        ],
        vec![
            ("hello", true),
            ("world", false),
            ("i", true),
            ("am", true),
            ("a", true),
            ("unit", false),
            ("test", true),
            ("case", false),
            ("for", false),
            ("bucket", false),
        ],
    ];
    for (eval_i, eval_context) in eval_contexts().iter().enumerate() {
        for (context_value, expected) in test_cases[eval_i].iter() {
            let context = context_of(Kind::StringValue(context_value.to_string()));
            match bucket(&fifty_percent(), &context, eval_context) {
                Ok(res) => assert_bucket(*expected, res, context_value, eval_context),
                _ => panic!("unexpected error"),
            }
        }
    }
}

#[test]
fn bucket_missing_key_is_false() {
    let context = Context::new();
    assert_eq!(bucket(&fifty_percent(), &context, &eval_contexts()[0]).ok(), Some(false));
}

#[test]
fn bucket_full_threshold_always_passes() {
    let everything = Bucket {
        context_key: String::from("key"),
        threshold: 100000,
    };
    for value in ["hello", "world", "unit", "bucket"] {
        let context = context_of(Kind::StringValue(value.to_string()));
        assert_eq!(bucket(&everything, &context, &eval_contexts()[1]).ok(), Some(true));
    }
}

#[test]
fn bucket_missing_kind_is_an_error() {
    let mut context = Context::new();
    context.insert(String::from("key"), Value { kind: None });
    let err = bucket(&fifty_percent(), &context, &eval_contexts()[0]).unwrap_err();
    assert_eq!(err.message, "empty ctx value kind");
}

#[test]
fn raising_the_threshold_keeps_values_in_the_bucket() {
    for value in ["hello", "world", "i", "am", "a", "unit", "test", "case", "for", "bucket"] {
        let context = context_of(Kind::StringValue(value.to_string()));
        let low = bucket(&fifty_percent(), &context, &eval_contexts()[0]).unwrap();
        let higher = Bucket { context_key: String::from("key"), threshold: 75000 };
        let high = bucket(&higher, &context, &eval_contexts()[0]).unwrap();
        assert!(!low || high, "{value} left the bucket");
    }
}

#[test]
fn a_context_reads_back_what_was_last_written() {
    let mut context = Context::new();
    context.insert(String::from("a"), Value { kind: Some(Kind::IntValue(1)) });
    context.insert(String::from("b"), Value { kind: Some(Kind::IntValue(2)) });
    context.insert(String::from("a"), Value { kind: Some(Kind::IntValue(3)) });
    assert!(matches!(context.get("a").and_then(|v| v.kind.as_ref()), Some(Kind::IntValue(3))));
    assert!(matches!(context.get("b").and_then(|v| v.kind.as_ref()), Some(Kind::IntValue(2))));
    assert!(context.get("c").is_none());
    assert_eq!(context.keys(), vec![String::from("a"), String::from("b")]);
}
