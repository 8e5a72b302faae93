use sidecar::evaluator::FeatureType;
use sidecar::logging::http_uri_to_method;
use sidecar::number::{double_equals, double_less, double_less_eq, int_to_double_bits};
use sidecar::rules_v1beta1::{ConditionLinker, LogicalOperator, Type};
use sidecar::text::{chars_of, contains, ends_with, starts_with};

#[test]
fn grpc_paths_name_service_and_method() {
    let m = http_uri_to_method("http://localhost:50051/lekko.client.v1beta1.ConfigurationService/GetBoolValue".to_string());
    assert_eq!(m.service, "lekko.client.v1beta1.ConfigurationService");
    assert_eq!(m.method, "GetBoolValue");
    let m = http_uri_to_method("/svc/method".to_string());
    assert_eq!((m.service.as_str(), m.method.as_str()), ("svc", "method"));
}

#[test]
fn integers_convert_to_the_nearest_double() {
    for i in [0i64, 1, -1, 2, 3, 1 << 53, (1 << 53) + 1, (1 << 53) + 3, i64::MAX, i64::MIN, -12345678901234567] {
        assert_eq!(int_to_double_bits(i), (i as f64).to_bits(), "converting {i}");
    }
}

#[test]
fn doubles_compare_as_ieee_numbers() {
    let b = |x: f64| x.to_bits();
    assert!(double_equals(b(0.0), b(-0.0)));
    assert!(!double_equals(b(f64::NAN), b(f64::NAN)));
    assert!(double_less(b(-1.5), b(2.0)));
    assert!(double_less(b(f64::NEG_INFINITY), b(-1e300)));
    assert!(!double_less(b(f64::NAN), b(1.0)));
    assert!(double_less_eq(b(-0.0), b(0.0)));
    assert!(!double_less_eq(b(3.0), b(2.0)));
}

#[test]
fn text_operations() {
    let s = chars_of("hello world");
    assert!(starts_with(&s, &chars_of("hello")));
    assert!(ends_with(&s, &chars_of("world")));
    assert!(contains(&s, &chars_of("o w")));
    assert!(!contains(&s, &chars_of("ow")));
    assert!(contains(&s, &chars_of("")));
}

#[test]
fn enum_names_are_those_of_the_protobuf_definitions() {
    assert_eq!(Type::Bool.as_str_name(), "TYPE_BOOL");
    assert_eq!(LogicalOperator::NotContainedWithin.as_str_name(), "LOGICAL_OPERATOR_NOT_CONTAINED_WITHIN");
    assert_eq!(ConditionLinker::Unspecified.as_str_name(), "CONDITION_LINKER_UNSPECIFIED");
    assert_eq!(FeatureType::Json.as_str_name(), "FEATURE_TYPE_JSON");
}
