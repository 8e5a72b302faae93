use sidecar::evaluator::EvalContext;
use sidecar::rules;
use sidecar::rules_v3::{
    check_rule, check_rules, Atom, Bucket, CallExpression, ComparisonOperator, EvaluateTo, Function,
    LogicalExpression, LogicalOperator, Rule, RuleKind,
};
use sidecar::status::Code;
use sidecar::value::{Context, Kind, ProtoKind, ProtoValue, Value};

fn eval_context() -> EvalContext {
    EvalContext {
        namespace: "ns".to_string(),
        feature_name: "feat".to_string(),
    }
}

fn number(x: f64) -> ProtoValue {
    ProtoValue { kind: Some(ProtoKind::NumberValue(x.to_bits())) }
}

fn string(s: &str) -> ProtoValue {
    ProtoValue { kind: Some(ProtoKind::StringValue(s.to_string())) }
}

fn atom(key: &str, op: ComparisonOperator, value: Option<ProtoValue>) -> Atom {
    Atom {
        context_key: key.to_string(),
        comparison_value: value,
        comparison_operator: op,
    }
}

fn atom_rule(key: &str, op: ComparisonOperator, value: Option<ProtoValue>) -> Rule {
    Rule { rule: Some(RuleKind::Atom(atom(key, op, value))) }
}

fn constant(b: bool) -> Rule {
    Rule { rule: Some(RuleKind::BoolConst(b)) }
}

fn context() -> Context {
    let mut c = Context::new();
    c.insert("age".to_string(), Value { kind: Some(Kind::IntValue(30)) });
    c.insert("score".to_string(), Value { kind: Some(Kind::DoubleValue(2.5f64.to_bits())) });
    c.insert("city".to_string(), Value { kind: Some(Kind::StringValue("Berlin".to_string())) });
    c.insert("beta".to_string(), Value { kind: Some(Kind::BoolValue(true)) });
    c
}

fn check(rule: &Rule) -> Result<bool, sidecar::status::Status> {
    check_rule(rule, &context(), &eval_context())
}

#[test]
fn numbers_compare_across_ints_and_doubles() {
    assert_eq!(check(&atom_rule("age", ComparisonOperator::Equals, Some(number(30.0)))).ok(), Some(true));
    assert_eq!(check(&atom_rule("age", ComparisonOperator::LessThan, Some(number(31.0)))).ok(), Some(true));
    assert_eq!(check(&atom_rule("age", ComparisonOperator::LessThan, Some(number(30.0)))).ok(), Some(false));
    assert_eq!(
        check(&atom_rule("age", ComparisonOperator::LessThanOrEquals, Some(number(30.0)))).ok(),
        Some(true)
    );
    assert_eq!(check(&atom_rule("score", ComparisonOperator::GreaterThan, Some(number(2.0)))).ok(), Some(true));
    assert_eq!(
        check(&atom_rule("score", ComparisonOperator::GreaterThanOrEquals, Some(number(2.6)))).ok(),
        Some(false)
    );
}

#[test]
fn not_equals_is_the_negation_of_equals() {
    for v in [29.0, 30.0, 31.0] {
        let eq = check(&atom_rule("age", ComparisonOperator::Equals, Some(number(v)))).unwrap();
        let ne = check(&atom_rule("age", ComparisonOperator::NotEquals, Some(number(v)))).unwrap();
        assert_eq!(eq, !ne);
    }
}

#[test]
fn strings_compare_by_prefix_suffix_and_infix() {
    assert_eq!(check(&atom_rule("city", ComparisonOperator::StartsWith, Some(string("Ber")))).ok(), Some(true));
    assert_eq!(check(&atom_rule("city", ComparisonOperator::EndsWith, Some(string("lin")))).ok(), Some(true));
    assert_eq!(check(&atom_rule("city", ComparisonOperator::Contains, Some(string("rl")))).ok(), Some(true));
    assert_eq!(check(&atom_rule("city", ComparisonOperator::Contains, Some(string("Paris")))).ok(), Some(false));
    assert_eq!(check(&atom_rule("city", ComparisonOperator::Equals, Some(string("Berlin")))).ok(), Some(true));
}

#[test]
fn contained_within_looks_through_the_list() {
    let list = ProtoValue {
        kind: Some(ProtoKind::ListValue(vec![string("Paris"), number(1.0), string("Berlin")])),
    };
    assert_eq!(check(&atom_rule("city", ComparisonOperator::ContainedWithin, Some(list))).ok(), Some(true));
    let list = ProtoValue { kind: Some(ProtoKind::ListValue(vec![string("Paris")])) };
    assert_eq!(check(&atom_rule("city", ComparisonOperator::ContainedWithin, Some(list))).ok(), Some(false));
}

#[test]
fn present_and_missing_keys() {
    assert_eq!(check(&atom_rule("age", ComparisonOperator::Present, None)).ok(), Some(true));
    assert_eq!(check(&atom_rule("nope", ComparisonOperator::Present, None)).ok(), Some(false));
    assert_eq!(check(&atom_rule("nope", ComparisonOperator::Equals, Some(number(1.0)))).ok(), Some(false));
    assert_eq!(check(&atom_rule("nope", ComparisonOperator::NotEquals, Some(number(1.0)))).ok(), Some(false));
}

#[test]
fn atom_errors() {
    let err = check(&atom_rule("age", ComparisonOperator::Equals, None)).unwrap_err();
    assert_eq!((err.code, err.message.as_str()), (Code::Internal, "empty comparison value"));
    let err = check(&atom_rule("age", ComparisonOperator::Equals, Some(string("30")))).unwrap_err();
    assert_eq!((err.code, err.message.as_str()), (Code::InvalidArgument, "type mismatch"));
    let err = check(&atom_rule("age", ComparisonOperator::Unspecified, Some(number(1.0)))).unwrap_err();
    assert_eq!(err.message, "unknown comparison operator");
    let err = check(&atom_rule("age", ComparisonOperator::Equals, Some(ProtoValue { kind: None }))).unwrap_err();
    assert_eq!(err.message, "empty rule value kind");
    let err = check(&Rule { rule: None }).unwrap_err();
    assert_eq!(err.message, "empty rule");
}

#[test]
fn negation_and_logical_expressions() {
    let not_true = Rule { rule: Some(RuleKind::Not(Box::new(constant(true)))) };
    assert_eq!(check(&not_true).ok(), Some(false));
    let rules = vec![constant(true), constant(false), constant(true)];
    assert_eq!(check_rules(&rules, &LogicalOperator::And, &context(), &eval_context()).ok(), Some(false));
    assert_eq!(check_rules(&rules, &LogicalOperator::Or, &context(), &eval_context()).ok(), Some(true));
    let err = check_rules(&[], &LogicalOperator::And, &context(), &eval_context()).unwrap_err();
    assert_eq!(err.message, "no rules found in logical expression");
    let err = check_rules(&rules, &LogicalOperator::Unspecified, &context(), &eval_context()).unwrap_err();
    assert_eq!(err.message, "unknown logical operator");
    let le = Rule {
        rule: Some(RuleKind::LogicalExpression(LogicalExpression {
            rules: vec![constant(true), constant(true)],
            logical_operator: LogicalOperator::And,
        })),
    };
    assert_eq!(check(&le).ok(), Some(true));
}

#[test]
fn every_rule_of_an_expression_is_evaluated() {
    // The error in the last rule surfaces even though the first already decides `Or`.
    let rules = vec![constant(true), Rule { rule: None }];
    let err = check_rules(&rules, &LogicalOperator::Or, &context(), &eval_context()).unwrap_err();
    assert_eq!(err.message, "empty rule");
}

#[test]
fn calls() {
    let call = |f: Option<Function>| Rule {
        rule: Some(RuleKind::CallExpression(CallExpression { function: f })),
    };
    let err = check(&call(None)).unwrap_err();
    assert_eq!(err.message, "empty function");
    let err = check(&call(Some(Function::EvaluateTo(EvaluateTo { config_name: "x".to_string() })))).unwrap_err();
    assert_eq!(err.message, "evaluate_to is not currently supported in the sidecar");
    let all = Function::Bucket(Bucket { context_key: "city".to_string(), threshold: 100000 });
    assert_eq!(check(&call(Some(all))).ok(), Some(true));
}

fn binary(first: Option<rules::Rule>, second: Option<rules::Rule>, op: LogicalOperator) -> rules::Rule {
    rules::Rule {
        rule: Some(rules::RuleKind::LogicalExpression(Box::new(rules::LogicalExpression {
            first_rule: first.map(Box::new),
            second_rule: second.map(Box::new),
            logical_operator: op,
        }))),
    }
}

fn v2_const(b: bool) -> rules::Rule {
    rules::Rule { rule: Some(rules::RuleKind::BoolConst(b)) }
}

#[test]
fn second_generation_rules() {
    let ctx = context();
    assert_eq!(rules::check_rule(&binary(Some(v2_const(true)), Some(v2_const(false)), LogicalOperator::Or), &ctx).ok(), Some(true));
    assert_eq!(rules::check_rule(&binary(Some(v2_const(true)), Some(v2_const(false)), LogicalOperator::And), &ctx).ok(), Some(false));
    let err = rules::check_rule(&binary(None, Some(v2_const(false)), LogicalOperator::And), &ctx).unwrap_err();
    assert_eq!(err.message, "empty first rule");
    let err = rules::check_rule(&binary(Some(v2_const(true)), None, LogicalOperator::And), &ctx).unwrap_err();
    assert_eq!(err.message, "empty second rule");
    let err = rules::check_rule(&binary(Some(v2_const(true)), Some(v2_const(true)), LogicalOperator::Unspecified), &ctx).unwrap_err();
    assert_eq!(err.message, "unknown logical operator");
    let not = rules::Rule { rule: Some(rules::RuleKind::Not(Box::new(v2_const(false)))) };
    assert_eq!(rules::check_rule(&not, &ctx).ok(), Some(true));
    let eq = rules::Rule { rule: Some(rules::RuleKind::Atom(atom("age", ComparisonOperator::Equals, Some(number(30.0))))) };
    assert_eq!(rules::check_rule(&eq, &ctx).ok(), Some(true));
    // This generation of rules knows no `NotEquals`.
    let ne = rules::Rule { rule: Some(rules::RuleKind::Atom(atom("age", ComparisonOperator::NotEquals, Some(number(30.0))))) };
    assert_eq!(rules::check_rule(&ne, &ctx).unwrap_err().message, "unknown comparison operator");
}
