//! Rules of the third generation: a tree of constants, negations, logical
//! expressions over any number of rules, comparisons of a context value
//! against a constant (atoms), and calls of functions such as bucketing.
use vstd::prelude::*;

use crate::evaluator::{EvalContext, EvalContextView};
use crate::functions::{bucket, spec_bucket};
use crate::number::{double_eq, double_le, double_lt, double_equals, double_less, double_less_eq, int_as_double, int_to_double_bits};
use crate::text::{chars_of, contains, ends_with, is_infix, is_prefix, is_suffix, starts_with};
use crate::status::{result_view, status, Code, Status, StatusView};
use crate::value::{
    lemma_proto_values_view, proto_value_view, proto_values_view, Context, Kind, KindView, ProtoKind,
    ProtoKindView, ProtoValue, ProtoValueView, Value,
};

verus! {

/// How an atom compares the context value (on the left) with its comparison
/// value (on the right).
#[derive(Clone, Copy, Debug, PartialEq, Eq, Structural)]
pub enum ComparisonOperator {
    Unspecified,
    Equals,
    LessThan,
    LessThanOrEquals,
    GreaterThan,
    GreaterThanOrEquals,
    ContainedWithin,
    StartsWith,
    EndsWith,
    Contains,
    Present,
    NotEquals,
}

/// How a logical expression combines the results of its rules.
#[derive(Clone, Copy, Debug, PartialEq, Eq, Structural)]
pub enum LogicalOperator {
    Unspecified,
    And,
    Or,
}

/// A comparison of the context value at `context_key` with a constant.
#[derive(Debug)]
pub struct Atom {
    pub context_key: String,
    pub comparison_value: Option<ProtoValue>,
    pub comparison_operator: ComparisonOperator,
}

/// Places a context value in a bucket of a percentage rollout: the threshold
/// is a percentage with three decimal places, scaled to [0, 100000].
#[derive(Debug)]
pub struct Bucket {
    pub context_key: String,
    pub threshold: u32,
}

/// Evaluates to the value of another config; not supported by the sidecar.
#[derive(Debug)]
pub struct EvaluateTo {
    pub config_name: String,
}

#[derive(Debug)]
pub enum Function {
    Bucket(Bucket),
    EvaluateTo(EvaluateTo),
}

#[derive(Debug)]
pub struct CallExpression {
    pub function: Option<Function>,
}

#[derive(Debug)]
pub struct LogicalExpression {
    pub rules: Vec<Rule>,
    pub logical_operator: LogicalOperator,
}

#[derive(Debug)]
pub enum RuleKind {
    BoolConst(bool),
    Not(Box<Rule>),
    LogicalExpression(LogicalExpression),
    Atom(Atom),
    CallExpression(CallExpression),
}

#[derive(Debug)]
pub struct Rule {
    pub rule: Option<RuleKind>,
}

pub struct AtomView {
    pub context_key: Seq<char>,
    pub comparison_value: Option<ProtoValueView>,
    pub comparison_operator: ComparisonOperator,
}

pub struct BucketView {
    pub context_key: Seq<char>,
    pub threshold: u32,
}

pub enum FunctionView {
    Bucket(BucketView),
    EvaluateTo(Seq<char>),
}

pub enum RuleKindView {
    BoolConst(bool),
    Not(Box<RuleView>),
    LogicalExpression(Seq<RuleView>, LogicalOperator),
    Atom(AtomView),
    CallExpression(Option<FunctionView>),
}

pub struct RuleView {
    pub rule: Option<RuleKindView>,
}

impl View for Atom {
    type V = AtomView;

    open spec fn view(&self) -> AtomView {
        AtomView {
            context_key: self.context_key@,
            comparison_value: match self.comparison_value {
                Some(v) => Some(v@),
                None => None,
            },
            comparison_operator: self.comparison_operator,
        }
    }
}

impl View for Bucket {
    type V = BucketView;

    open spec fn view(&self) -> BucketView {
        BucketView { context_key: self.context_key@, threshold: self.threshold }
    }
}

impl View for Function {
    type V = FunctionView;

    open spec fn view(&self) -> FunctionView {
        match self {
            Function::Bucket(b) => FunctionView::Bucket(b@),
            Function::EvaluateTo(e) => FunctionView::EvaluateTo(e.config_name@),
        }
    }
}

pub open spec fn rule_view(r: Rule) -> RuleView
    decreases r,
{
    RuleView {
        rule: match r.rule {
            None => None,
            Some(k) => Some(
                match k {
                    RuleKind::BoolConst(b) => RuleKindView::BoolConst(b),
                    RuleKind::Not(inner) => RuleKindView::Not(Box::new(rule_view(*inner))),
                    RuleKind::LogicalExpression(le) => RuleKindView::LogicalExpression(
                        rules_view(le.rules@),
                        le.logical_operator,
                    ),
                    RuleKind::Atom(a) => RuleKindView::Atom(a@),
                    RuleKind::CallExpression(ce) => RuleKindView::CallExpression(
                        match ce.function {
                            Some(f) => Some(f@),
                            None => None,
                        },
                    ),
                },
            ),
        },
    }
}

pub open spec fn rules_view(s: Seq<Rule>) -> Seq<RuleView>
    decreases s,
{
    if s.len() == 0 {
        Seq::empty()
    } else {
        seq![rule_view(s[0])] + rules_view(s.subrange(1, s.len() as int))
    }
}

impl View for Rule {
    type V = RuleView;

    open spec fn view(&self) -> RuleView {
        rule_view(*self)
    }
}

fn clone_atom(a: &Atom) -> (r: Atom)
    ensures
        r@ == a@,
{
    let comparison_value = match &a.comparison_value {
        Some(v) => Some(v.clone()),
        None => None,
    };
    Atom {
        context_key: a.context_key.clone(),
        comparison_value,
        comparison_operator: a.comparison_operator,
    }
}

fn clone_function(f: &Function) -> (r: Function)
    ensures
        r@ == f@,
{
    match f {
        Function::Bucket(b) => Function::Bucket(
            Bucket { context_key: b.context_key.clone(), threshold: b.threshold },
        ),
        Function::EvaluateTo(e) => Function::EvaluateTo(
            EvaluateTo { config_name: e.config_name.clone() },
        ),
    }
}

fn clone_rule(rule: &Rule) -> (r: Rule)
    ensures
        r@ == rule@,
    decreases rule,
{
    let kind = match &rule.rule {
        None => None,
        Some(k) => Some(
            match k {
                RuleKind::BoolConst(b) => RuleKind::BoolConst(*b),
                RuleKind::Not(inner) => RuleKind::Not(Box::new(clone_rule(inner))),
                RuleKind::LogicalExpression(le) => RuleKind::LogicalExpression(
                    LogicalExpression {
                        rules: clone_rules(&le.rules),
                        logical_operator: le.logical_operator,
                    },
                ),
                RuleKind::Atom(a) => RuleKind::Atom(clone_atom(a)),
                RuleKind::CallExpression(ce) => RuleKind::CallExpression(
                    CallExpression {
                        function: match &ce.function {
                            Some(f) => Some(clone_function(f)),
                            None => None,
                        },
                    },
                ),
            },
        ),
    };
    Rule { rule: kind }
}

fn clone_rules(rules: &Vec<Rule>) -> (r: Vec<Rule>)
    ensures
        rules_view(r@) == rules_view(rules@),
    decreases rules,
{
    let mut r: Vec<Rule> = Vec::new();
    let mut i: usize = 0;
    while i < rules.len()
        invariant
            i <= rules@.len(),
            r@.len() == i,
            forall|j: int| 0 <= j < i ==> #[trigger] rule_view(r@[j]) == rule_view(rules@[j]),
        decreases rules@.len() - i,
    {
        r.push(clone_rule(&rules[i]));
        i = i + 1;
    }
    proof {
        lemma_rules_view(r@);
        lemma_rules_view(rules@);
        assert(rules_view(r@) =~= rules_view(rules@));
    }
    r
}

impl Clone for Rule {
    fn clone(&self) -> (r: Self)
        ensures
            r@ == self@,
    {
        clone_rule(self)
    }
}

/// The view of a list of rules is the list of their views.
pub proof fn lemma_rules_view(s: Seq<Rule>)
    ensures
        rules_view(s).len() == s.len(),
        forall|i: int| 0 <= i < s.len() ==> #[trigger] rules_view(s)[i] == rule_view(s[i]),
    decreases s.len(),
{
    if s.len() > 0 {
        lemma_rules_view(s.subrange(1, s.len() as int));
    }
}


pub open spec fn type_mismatch() -> StatusView {
    status(Code::InvalidArgument, "type mismatch"@)
}

/// `context == rule` for a comparison value and a context value of the same
/// type; a number compares equal to an integer when it equals the integer
/// converted to a double.
pub open spec fn spec_equals_cmp(rule_kind: ProtoKindView, ctx_kind: KindView) -> Result<
    bool,
    StatusView,
> {
    match rule_kind {
        ProtoKindView::BoolValue(rule_bool) => match ctx_kind {
            KindView::BoolValue(ctx_bool) => Ok(rule_bool == ctx_bool),
            _ => Err(type_mismatch()),
        },
        ProtoKindView::NumberValue(rule_num) => match ctx_kind {
            KindView::IntValue(ctx_num) => Ok(double_eq(rule_num, int_as_double(ctx_num))),
            KindView::DoubleValue(ctx_num) => Ok(double_eq(rule_num, ctx_num)),
            _ => Err(type_mismatch()),
        },
        ProtoKindView::StringValue(rule_str) => match ctx_kind {
            KindView::StringValue(ctx_str) => Ok(rule_str == ctx_str),
            _ => Err(type_mismatch()),
        },
        _ => Err(status(Code::Internal, "unsupported rule value kind"@)),
    }
}

/// The number of a comparison value, if it is one.
pub open spec fn spec_get_number(kind: ProtoKindView) -> Result<u64, StatusView> {
    match kind {
        ProtoKindView::NumberValue(n) => Ok(n),
        _ => Err(type_mismatch()),
    }
}

/// The number of a context value: a double, or an integer converted to one.
pub open spec fn spec_get_lekko_number(kind: KindView) -> Result<u64, StatusView> {
    match kind {
        KindView::IntValue(i) => Ok(int_as_double(i)),
        KindView::DoubleValue(d) => Ok(d),
        _ => Err(type_mismatch()),
    }
}

/// `context <op> rule` on numbers.
pub open spec fn spec_num_cmp(
    op: ComparisonOperator,
    rule_kind: ProtoKindView,
    ctx_kind: KindView,
) -> Result<bool, StatusView> {
    match spec_get_number(rule_kind) {
        Err(e) => Err(e),
        Ok(rule_num) => match spec_get_lekko_number(ctx_kind) {
            Err(e) => Err(e),
            Ok(ctx_num) => match op {
                ComparisonOperator::LessThan => Ok(double_lt(ctx_num, rule_num)),
                ComparisonOperator::LessThanOrEquals => Ok(double_le(ctx_num, rule_num)),
                ComparisonOperator::GreaterThan => Ok(double_lt(rule_num, ctx_num)),
                ComparisonOperator::GreaterThanOrEquals => Ok(double_le(rule_num, ctx_num)),
                _ => Err(status(Code::Internal, "invalid comparison operator"@)),
            },
        },
    }
}

/// Whether some element of a list equals the context value. An element of no
/// kind is an error; an element whose comparison fails is passed over.
pub open spec fn spec_list_contains(elems: Seq<ProtoValueView>, ctx_kind: KindView) -> Result<
    bool,
    StatusView,
>
    decreases elems.len(),
{
    if elems.len() == 0 {
        Ok(false)
    } else {
        match elems[0].kind {
            None => Err(status(Code::Internal, "empty rule value kind"@)),
            Some(k) => if spec_equals_cmp(k, ctx_kind) == Ok::<bool, StatusView>(true) {
                Ok(true)
            } else {
                spec_list_contains(elems.drop_first(), ctx_kind)
            },
        }
    }
}

/// Whether the context value is contained in the list that the rule holds.
pub open spec fn spec_list_cmp(rule_kind: ProtoKindView, ctx_kind: KindView) -> Result<
    bool,
    StatusView,
> {
    match rule_kind {
        ProtoKindView::ListValue(l) => spec_list_contains(l, ctx_kind),
        _ => Err(type_mismatch()),
    }
}

/// The string of a comparison value, if it is one.
pub open spec fn spec_get_string(kind: ProtoKindView) -> Result<Seq<char>, StatusView> {
    match kind {
        ProtoKindView::StringValue(s) => Ok(s),
        _ => Err(type_mismatch()),
    }
}

/// The string of a context value, if it is one.
pub open spec fn spec_get_lekko_string(kind: KindView) -> Result<Seq<char>, StatusView> {
    match kind {
        KindView::StringValue(s) => Ok(s),
        _ => Err(type_mismatch()),
    }
}

/// `context <op> rule` on strings: starts with, ends with, or contains.
pub open spec fn spec_str_cmp(
    op: ComparisonOperator,
    rule_kind: ProtoKindView,
    ctx_kind: KindView,
) -> Result<bool, StatusView> {
    match spec_get_string(rule_kind) {
        Err(e) => Err(e),
        Ok(rule_str) => match spec_get_lekko_string(ctx_kind) {
            Err(e) => Err(e),
            Ok(ctx_str) => match op {
                ComparisonOperator::StartsWith => Ok(is_prefix(rule_str, ctx_str)),
                ComparisonOperator::EndsWith => Ok(is_suffix(rule_str, ctx_str)),
                ComparisonOperator::Contains => Ok(is_infix(rule_str, ctx_str)),
                _ => Err(status(Code::Internal, "invalid comparison operator"@)),
            },
        },
    }
}

/// The result of an atom. `Present` asks whether the key has a value; every
/// other operator needs a comparison value, and is false when the key has none.
pub open spec fn spec_check_atom(a: AtomView, context: Map<Seq<char>, Value>) -> Result<
    bool,
    StatusView,
> {
    let present = context.contains_key(a.context_key);
    if a.comparison_operator == ComparisonOperator::Present {
        Ok(present)
    } else if a.comparison_value is None {
        Err(status(Code::Internal, "empty comparison value"@))
    } else if !present {
        Ok(false)
    } else {
        match a.comparison_value->0.kind {
            None => Err(status(Code::Internal, "empty rule value kind"@)),
            Some(rule_kind) => match context[a.context_key]@ {
                None => Err(status(Code::Internal, "empty ctx value kind"@)),
                Some(ctx_kind) => match a.comparison_operator {
                    ComparisonOperator::Equals => spec_equals_cmp(rule_kind, ctx_kind),
                    ComparisonOperator::NotEquals => match spec_equals_cmp(rule_kind, ctx_kind) {
                        Ok(b) => Ok(!b),
                        Err(e) => Err(e),
                    },
                    ComparisonOperator::LessThan
                    | ComparisonOperator::LessThanOrEquals
                    | ComparisonOperator::GreaterThan
                    | ComparisonOperator::GreaterThanOrEquals => spec_num_cmp(
                        a.comparison_operator,
                        rule_kind,
                        ctx_kind,
                    ),
                    ComparisonOperator::ContainedWithin => spec_list_cmp(rule_kind, ctx_kind),
                    ComparisonOperator::StartsWith
                    | ComparisonOperator::EndsWith
                    | ComparisonOperator::Contains => spec_str_cmp(
                        a.comparison_operator,
                        rule_kind,
                        ctx_kind,
                    ),
                    ComparisonOperator::Present => Err(
                        status(Code::Internal, "present should be handled above"@),
                    ),
                    ComparisonOperator::Unspecified => Err(
                        status(Code::Internal, "unknown comparison operator"@),
                    ),
                },
            },
        }
    }
}

/// The result of a rule in a context.
pub open spec fn spec_check_rule(
    rule: RuleView,
    context: Map<Seq<char>, Value>,
    eval_context: EvalContextView,
) -> Result<bool, StatusView>
    decreases rule, 0nat,
{
    match rule.rule {
        None => Err(status(Code::Internal, "empty rule"@)),
        Some(RuleKindView::BoolConst(b)) => Ok(b),
        Some(RuleKindView::Not(inner)) => match spec_check_rule(*inner, context, eval_context) {
            Ok(b) => Ok(!b),
            Err(e) => Err(e),
        },
        Some(RuleKindView::LogicalExpression(rules, op)) => spec_check_rules(
            rules,
            op,
            context,
            eval_context,
        ),
        Some(RuleKindView::Atom(a)) => spec_check_atom(a, context),
        Some(RuleKindView::CallExpression(f)) => match f {
            None => Err(status(Code::Internal, "empty function"@)),
            Some(FunctionView::Bucket(b)) => spec_bucket(b, context, eval_context),
            Some(FunctionView::EvaluateTo(_)) => Err(
                status(Code::Internal, "evaluate_to is not currently supported in the sidecar"@),
            ),
        },
    }
}

/// All of the rules are evaluated in order; the first error is the result,
/// and otherwise the results are combined by `op` (`And` or `Or`).
pub open spec fn spec_fold_rules(
    rules: Seq<RuleView>,
    op: LogicalOperator,
    context: Map<Seq<char>, Value>,
    eval_context: EvalContextView,
) -> Result<bool, StatusView>
    decreases rules, 0nat,
{
    if rules.len() == 0 {
        Ok(op == LogicalOperator::And)
    } else {
        match spec_fold_rules(rules.subrange(0, rules.len() - 1), op, context, eval_context) {
            Err(e) => Err(e),
            Ok(acc) => match spec_check_rule(rules[rules.len() - 1], context, eval_context) {
                Err(e) => Err(e),
                Ok(b) => Ok(
                    if op == LogicalOperator::And {
                        acc && b
                    } else {
                        acc || b
                    },
                ),
            },
        }
    }
}

/// The result of a logical expression: an error when it has no rules or no
/// operator, else the conjunction or disjunction of the results of its rules.
pub open spec fn spec_check_rules(
    rules: Seq<RuleView>,
    op: LogicalOperator,
    context: Map<Seq<char>, Value>,
    eval_context: EvalContextView,
) -> Result<bool, StatusView>
    decreases rules, 1nat,
{
    if rules.len() == 0 {
        Err(status(Code::Internal, "no rules found in logical expression"@))
    } else if op == LogicalOperator::Unspecified {
        Err(status(Code::Internal, "unknown logical operator"@))
    } else {
        spec_fold_rules(rules, op, context, eval_context)
    }
}


/// The elements of a list from position `i` on.
pub open spec fn remaining(elems: Seq<ProtoValueView>, i: usize) -> Seq<ProtoValueView> {
    elems.subrange(i as int, elems.len() as int)
}

proof fn lemma_remaining_start(elems: Seq<ProtoValueView>)
    ensures
        remaining(elems, 0) == elems,
{
    assert(remaining(elems, 0) =~= elems);
}

proof fn lemma_remaining_step(elems: Seq<ProtoValueView>, list: Seq<ProtoValue>, i: usize)
    requires
        elems == proto_values_view(list),
        i < elems.len(),
        i < usize::MAX,
    ensures
        remaining(elems, i)[0] == proto_value_view(list[i as int]),
        remaining(elems, i).len() > 0,
        remaining(elems, i)[0] == elems[i as int],
        remaining(elems, i).drop_first() == remaining(elems, (i + 1) as usize),
{
    assert(remaining(elems, i).drop_first() =~= remaining(elems, (i + 1) as usize));
    lemma_proto_values_view(list);
}

/// `context == rule` (see `spec_equals_cmp`).
fn check_equals_cmp(rule_kind: &ProtoKind, ctx_kind: &Kind) -> (r: Result<bool, Status>)
    ensures
        result_view(r) == spec_equals_cmp(rule_kind@, ctx_kind@),
{
    match rule_kind {
        ProtoKind::BoolValue(rule_bool) => match ctx_kind {
            Kind::BoolValue(ctx_bool) => Ok(*rule_bool == *ctx_bool),
            _ => Err(Status::invalid_argument("type mismatch")),
        },
        ProtoKind::NumberValue(rule_num) => match ctx_kind {
            Kind::IntValue(ctx_num) => Ok(double_equals(*rule_num, int_to_double_bits(*ctx_num))),
            Kind::DoubleValue(ctx_num) => Ok(double_equals(*rule_num, *ctx_num)),
            _ => Err(Status::invalid_argument("type mismatch")),
        },
        ProtoKind::StringValue(rule_str) => match ctx_kind {
            Kind::StringValue(ctx_str) => Ok(*rule_str == *ctx_str),
            _ => Err(Status::invalid_argument("type mismatch")),
        },
        _ => Err(Status::internal("unsupported rule value kind")),
    }
}

/// The number of a comparison value.
fn get_number(kind: &ProtoKind) -> (r: Result<u64, Status>)
    ensures
        result_view(r) == spec_get_number(kind@),
{
    match kind {
        ProtoKind::NumberValue(num_value) => Ok(*num_value),
        _ => Err(Status::invalid_argument("type mismatch")),
    }
}

/// The number of a context value; an integer is converted to a double.
fn get_lekko_number(kind: &Kind) -> (r: Result<u64, Status>)
    ensures
        result_view(r) == spec_get_lekko_number(kind@),
{
    match kind {
        Kind::IntValue(int_value) => Ok(int_to_double_bits(*int_value)),
        Kind::DoubleValue(double_value) => Ok(*double_value),
        _ => Err(Status::invalid_argument("type mismatch")),
    }
}

/// The string of a comparison value.
fn get_string(kind: &ProtoKind) -> (r: Result<String, Status>)
    ensures
        match r {
            Ok(s) => spec_get_string(kind@) == Ok::<Seq<char>, StatusView>(s@),
            Err(e) => spec_get_string(kind@) == Err::<Seq<char>, StatusView>(e@),
        },
{
    match kind {
        ProtoKind::StringValue(str) => Ok(str.clone()),
        _ => Err(Status::invalid_argument("type mismatch")),
    }
}

/// The string of a context value.
fn get_lekko_string(kind: &Kind) -> (r: Result<String, Status>)
    ensures
        match r {
            Ok(s) => spec_get_lekko_string(kind@) == Ok::<Seq<char>, StatusView>(s@),
            Err(e) => spec_get_lekko_string(kind@) == Err::<Seq<char>, StatusView>(e@),
        },
{
    match kind {
        Kind::StringValue(str_value) => Ok(str_value.clone()),
        _ => Err(Status::invalid_argument("type mismatch")),
    }
}

/// `context <co> rule` on numbers (see `spec_num_cmp`).
fn check_num_cmp(co: &ComparisonOperator, rule_kind: &ProtoKind, ctx_kind: &Kind) -> (r: Result<
    bool,
    Status,
>)
    ensures
        result_view(r) == spec_num_cmp(*co, rule_kind@, ctx_kind@),
{
    let rule_num = match get_number(rule_kind) {
        Ok(n) => n,
        Err(e) => {
            return Err(e);
        },
    };
    let ctx_num = match get_lekko_number(ctx_kind) {
        Ok(n) => n,
        Err(e) => {
            return Err(e);
        },
    };
    match co {
        ComparisonOperator::LessThan => Ok(double_less(ctx_num, rule_num)),
        ComparisonOperator::LessThanOrEquals => Ok(double_less_eq(ctx_num, rule_num)),
        ComparisonOperator::GreaterThan => Ok(double_less(rule_num, ctx_num)),
        ComparisonOperator::GreaterThanOrEquals => Ok(double_less_eq(rule_num, ctx_num)),
        _ => Err(Status::internal("invalid comparison operator")),
    }
}

/// Whether the context value is an element of the rule's list (see `spec_list_cmp`).
fn check_list_cmp(rule_kind: &ProtoKind, ctx_kind: &Kind) -> (r: Result<bool, Status>)
    ensures
        result_view(r) == spec_list_cmp(rule_kind@, ctx_kind@),
{
    match rule_kind {
        ProtoKind::ListValue(rule_list) => {
            let ghost elems = proto_values_view(rule_list@);
            proof {
                lemma_proto_values_view(rule_list@);
                lemma_remaining_start(elems);
            }
            let mut i: usize = 0;
            while i < rule_list.len()
                invariant
                    i <= rule_list@.len(),
                    elems == proto_values_view(rule_list@),
                    rule_kind@ == ProtoKindView::ListValue(elems),
                    elems.len() == rule_list@.len(),
                    forall|j: int|
                        0 <= j < rule_list@.len() ==> #[trigger] elems[j] == proto_value_view(
                            rule_list@[j],
                        ),
                    spec_list_contains(elems, ctx_kind@) == spec_list_contains(
                        remaining(elems, i),
                        ctx_kind@,
                    ),
                decreases rule_list@.len() - i,
            {
                let rule_elem = &rule_list[i];
                proof {
                    lemma_remaining_step(elems, rule_list@, i);
                }

                let rule_elem_kind = match &rule_elem.kind {
                    Some(k) => k,
                    None => {
                        return Err(Status::internal("empty rule value kind"));
                    },
                };
                let elem_equal = check_equals_cmp(rule_elem_kind, ctx_kind);
                match elem_equal {
                    Ok(true) => {
                        return Ok(true);
                    },
                    _ => {},
                }
                i = i + 1;
            }
            Ok(false)
        },
        _ => Err(Status::invalid_argument("type mismatch")),
    }
}

/// `context <co> rule` on strings (see `spec_str_cmp`).
fn check_str_cmp(co: &ComparisonOperator, rule_kind: &ProtoKind, ctx_kind: &Kind) -> (r: Result<
    bool,
    Status,
>)
    ensures
        result_view(r) == spec_str_cmp(*co, rule_kind@, ctx_kind@),
{
    let rule_str = match get_string(rule_kind) {
        Ok(s) => s,
        Err(e) => {
            return Err(e);
        },
    };
    let ctx_str = match get_lekko_string(ctx_kind) {
        Ok(s) => s,
        Err(e) => {
            return Err(e);
        },
    };
    let rule_chars = chars_of(rule_str.as_str());
    let ctx_chars = chars_of(ctx_str.as_str());
    match co {
        ComparisonOperator::StartsWith => Ok(starts_with(&ctx_chars, &rule_chars)),
        ComparisonOperator::EndsWith => Ok(ends_with(&ctx_chars, &rule_chars)),
        ComparisonOperator::Contains => Ok(contains(&ctx_chars, &rule_chars)),
        _ => Err(Status::internal("invalid comparison operator")),
    }
}


/// A failed fold stays failed with the same error when more rules follow.
proof fn lemma_fold_err_extends(
    rules: Seq<RuleView>,
    k: int,
    op: LogicalOperator,
    context: Map<Seq<char>, Value>,
    eval_context: EvalContextView,
)
    requires
        0 <= k <= rules.len(),
        spec_fold_rules(rules.subrange(0, k), op, context, eval_context) is Err,
    ensures
        spec_fold_rules(rules, op, context, eval_context) == spec_fold_rules(
            rules.subrange(0, k),
            op,
            context,
            eval_context,
        ),
    decreases rules.len(),
{
    if k == rules.len() {
        assert(rules.subrange(0, k) =~= rules);
    } else {
        let shorter = rules.subrange(0, rules.len() - 1);
        assert(shorter.subrange(0, k) =~= rules.subrange(0, k));
        lemma_fold_err_extends(shorter, k, op, context, eval_context);
    }
}

/// The atom with its comparison operator taken to be `op`.
pub open spec fn atom_with_operator(a: AtomView, op: ComparisonOperator) -> AtomView {
    AtomView { context_key: a.context_key, comparison_value: a.comparison_value, comparison_operator: op }
}

/// Evaluates an atom as if its comparison operator were `op`.
pub(crate) fn check_atom(a: &Atom, op: ComparisonOperator, context: &Context) -> (r: Result<bool, Status>)
    ensures
        result_view(r) == spec_check_atom(atom_with_operator(a@, op), context@),
{
    let ctx_key = &a.context_key;
    let present = context.contains_key(ctx_key.as_str());
    if op == ComparisonOperator::Present {
        return Ok(present);
    }
    let comparison_value = match &a.comparison_value {
        Some(v) => v,
        None => {
            return Err(Status::internal("empty comparison value"));
        },
    };
    if !present {
        return Ok(false);
    }
    let rule_kind = match &comparison_value.kind {
        Some(k) => k,
        None => {
            return Err(Status::internal("empty rule value kind"));
        },
    };
    let ctx_value = match context.get(ctx_key.as_str()) {
        Some(v) => v,
        None => {
            return Err(Status::internal("empty ctx value"));
        },
    };
    let ctx_kind = match &ctx_value.kind {
        Some(k) => k,
        None => {
            return Err(Status::internal("empty ctx value kind"));
        },
    };
    match op {
        ComparisonOperator::Equals => check_equals_cmp(rule_kind, ctx_kind),
        ComparisonOperator::NotEquals => match check_equals_cmp(rule_kind, ctx_kind) {
            Ok(b) => Ok(!b),
            Err(e) => Err(e),
        },
        ComparisonOperator::LessThan => check_num_cmp(
            &op,
            rule_kind,
            ctx_kind,
        ),
        ComparisonOperator::LessThanOrEquals => check_num_cmp(
            &op,
            rule_kind,
            ctx_kind,
        ),
        ComparisonOperator::GreaterThan => check_num_cmp(
            &op,
            rule_kind,
            ctx_kind,
        ),
        ComparisonOperator::GreaterThanOrEquals => check_num_cmp(
            &op,
            rule_kind,
            ctx_kind,
        ),
        ComparisonOperator::ContainedWithin => check_list_cmp(rule_kind, ctx_kind),
        ComparisonOperator::StartsWith => check_str_cmp(
            &op,
            rule_kind,
            ctx_kind,
        ),
        ComparisonOperator::EndsWith => check_str_cmp(
            &op,
            rule_kind,
            ctx_kind,
        ),
        ComparisonOperator::Contains => check_str_cmp(
            &op,
            rule_kind,
            ctx_kind,
        ),
        ComparisonOperator::Present => Err(
            Status::internal("present should be handled above"),
        ),
        ComparisonOperator::Unspecified => Err(
            Status::internal("unknown comparison operator"),
        ),
    }
}

/// Evaluates a rule in a context. This is recursive: negations and logical
/// expressions evaluate the rules they hold.
pub fn check_rule(rule: &Rule, context: &Context, eval_context: &EvalContext) -> (r: Result<
    bool,
    Status,
>)
    ensures
        result_view(r) == spec_check_rule(rule@, context@, eval_context@),
    decreases rule,
{
    let r = match &rule.rule {
        Some(r) => r,
        None => {
            return Err(Status::internal("empty rule"));
        },
    };
    match r {
        RuleKind::BoolConst(b) => Ok(*b),
        RuleKind::Not(not_rule) => match check_rule(not_rule, context, eval_context) {
            Ok(b) => Ok(!b),
            Err(e) => Err(e),
        },
        RuleKind::LogicalExpression(le) => check_rules(
            le.rules.as_slice(),
            &le.logical_operator,
            context,
            eval_context,
        ),
        RuleKind::Atom(a) => check_atom(a, a.comparison_operator, context),
        RuleKind::CallExpression(ce) => {
            let function = match &ce.function {
                Some(f) => f,
                None => {
                    return Err(Status::internal("empty function"));
                },
            };
            match function {
                Function::Bucket(bucket_f) => bucket(bucket_f, context, eval_context),
                Function::EvaluateTo(_) => Err(
                    Status::internal("evaluate_to is not currently supported in the sidecar"),
                ),
            }
        },
    }
}

/// Evaluates the rules of a logical expression, all of them and in order, and
/// combines their results by `operator`. No rules, an unspecified operator, or
/// an error in any rule make the result an error.
pub fn check_rules(
    rules: &[Rule],
    operator: &LogicalOperator,
    context: &Context,
    eval_context: &EvalContext,
) -> (r: Result<bool, Status>)
    ensures
        result_view(r) == spec_check_rules(rules_view(rules@), *operator, context@, eval_context@),
    decreases rules@,
{
    let ghost views = rules_view(rules@);
    proof {
        lemma_rules_view(rules@);
    }
    if rules.len() == 0 {
        return Err(Status::internal("no rules found in logical expression"));
    }
    let is_and = *operator == LogicalOperator::And;
    let mut acc: bool = is_and;
    let mut i: usize = 0;
    assert(views.subrange(0, 0) =~= Seq::<RuleView>::empty());
    while i < rules.len()
        invariant
            i <= rules@.len(),
            views == rules_view(rules@),
            views.len() == rules@.len(),
            forall|j: int| 0 <= j < rules@.len() ==> #[trigger] views[j] == rule_view(rules@[j]),
            is_and == (*operator == LogicalOperator::And),
            spec_fold_rules(views.subrange(0, i as int), *operator, context@, eval_context@) == Ok::<
                bool,
                StatusView,
            >(acc),
        decreases rules@.len() - i,
    {
        let ghost prefix = views.subrange(0, i + 1);
        assert(prefix.subrange(0, prefix.len() - 1) =~= views.subrange(0, i as int));
        assert(prefix[prefix.len() - 1] == rule_view(rules@[i as int]));
        match check_rule(&rules[i], context, eval_context) {
            Err(e) => {
                proof {
                    lemma_fold_err_extends(views, i + 1, *operator, context@, eval_context@);
                }
                if *operator == LogicalOperator::Unspecified {
                    return Err(Status::internal("unknown logical operator"));
                }
                return Err(e);
            },
            Ok(b) => {
                acc = if is_and {
                    acc && b
                } else {
                    acc || b
                };
            },
        }
        i = i + 1;
    }
    assert(views.subrange(0, i as int) =~= views);
    match operator {
        LogicalOperator::Unspecified => Err(Status::internal("unknown logical operator")),
        _ => Ok(acc),
    }
}

} // verus!
