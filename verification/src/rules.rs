//! Rules of the second generation: a tree of constants, negations, binary
//! logical expressions and comparisons of a context value against a constant
//! (atoms).
use vstd::prelude::*;

use crate::rules_v3::{
    atom_with_operator, check_atom, spec_check_atom, Atom, AtomView, ComparisonOperator,
    LogicalOperator,
};
use crate::status::{result_view, status, Code, Status, StatusView};
use crate::value::{Context, Value};

verus! {

/// Two rules combined by a logical operator.
#[derive(Debug)]
pub struct LogicalExpression {
    pub first_rule: Option<Box<Rule>>,
    pub second_rule: Option<Box<Rule>>,
    pub logical_operator: LogicalOperator,
}

#[derive(Debug)]
pub enum RuleKind {
    BoolConst(bool),
    Not(Box<Rule>),
    LogicalExpression(Box<LogicalExpression>),
    Atom(Atom),
}

#[derive(Debug)]
pub struct Rule {
    pub rule: Option<RuleKind>,
}

pub enum RuleKindView {
    BoolConst(bool),
    Not(Box<RuleView>),
    LogicalExpression(Option<Box<RuleView>>, Option<Box<RuleView>>, LogicalOperator),
    Atom(AtomView),
}

pub struct RuleView {
    pub rule: Option<RuleKindView>,
}

pub open spec fn rule_view(r: Rule) -> RuleView
    decreases r,
{
    RuleView {
        rule: match r.rule {
            None => None,
            Some(RuleKind::BoolConst(b)) => Some(RuleKindView::BoolConst(b)),
            Some(RuleKind::Not(inner)) => Some(RuleKindView::Not(Box::new(rule_view(*inner)))),
            Some(RuleKind::LogicalExpression(le)) => Some(
                RuleKindView::LogicalExpression(
                    match le.first_rule {
                        Some(f) => Some(Box::new(rule_view(*f))),
                        None => None,
                    },
                    match le.second_rule {
                        Some(s) => Some(Box::new(rule_view(*s))),
                        None => None,
                    },
                    le.logical_operator,
                ),
            ),
            Some(RuleKind::Atom(a)) => Some(RuleKindView::Atom(a@)),
        },
    }
}

impl View for Rule {
    type V = RuleView;

    open spec fn view(&self) -> RuleView {
        rule_view(*self)
    }
}

/// The result of an atom. Of the comparison operators, this generation of
/// rules knows neither `NotEquals` nor `Unspecified`.
pub open spec fn spec_check_atom_v2(a: AtomView, context: Map<Seq<char>, Value>) -> Result<
    bool,
    StatusView,
> {
    if a.comparison_operator == ComparisonOperator::NotEquals {
        spec_check_atom(atom_with_operator(a, ComparisonOperator::Unspecified), context)
    } else {
        spec_check_atom(a, context)
    }
}

/// The result of a rule in a context. A logical expression evaluates its
/// first rule, then its second, and only then looks at its operator.
pub open spec fn spec_check_rule(rule: RuleView, context: Map<Seq<char>, Value>) -> Result<
    bool,
    StatusView,
>
    decreases rule,
{
    match rule.rule {
        None => Err(status(Code::Internal, "empty rule"@)),
        Some(RuleKindView::BoolConst(b)) => Ok(b),
        Some(RuleKindView::Not(inner)) => match spec_check_rule(*inner, context) {
            Ok(b) => Ok(!b),
            Err(e) => Err(e),
        },
        Some(RuleKindView::LogicalExpression(first, second, op)) => match first {
            None => Err(status(Code::Internal, "empty first rule"@)),
            Some(f) => match spec_check_rule(*f, context) {
                Err(e) => Err(e),
                Ok(a) => match second {
                    None => Err(status(Code::Internal, "empty second rule"@)),
                    Some(s) => match spec_check_rule(*s, context) {
                        Err(e) => Err(e),
                        Ok(b) => match op {
                            LogicalOperator::And => Ok(a && b),
                            LogicalOperator::Or => Ok(a || b),
                            LogicalOperator::Unspecified => Err(
                                status(Code::Internal, "unknown logical operator"@),
                            ),
                        },
                    },
                },
            },
        },
        Some(RuleKindView::Atom(a)) => spec_check_atom_v2(a, context),
    }
}

/// Evaluates a rule in a context, recursively through negations and logical
/// expressions.
pub fn check_rule(rule: &Rule, context: &Context) -> (r: Result<bool, Status>)
    ensures
        result_view(r) == spec_check_rule(rule@, context@),
    decreases rule,
{
    let r = match &rule.rule {
        Some(r) => r,
        None => {
            return Err(Status::internal("empty rule"));
        },
    };
    match r {
        RuleKind::BoolConst(b) => Ok(*b),
        RuleKind::Not(not_rule) => match check_rule(not_rule, context) {
            Ok(b) => Ok(!b),
            Err(e) => Err(e),
        },
        RuleKind::LogicalExpression(le) => {
            let first_rule = match &le.first_rule {
                Some(f) => f,
                None => {
                    return Err(Status::internal("empty first rule"));
                },
            };
            let first = match check_rule(first_rule, context) {
                Ok(b) => b,
                Err(e) => {
                    return Err(e);
                },
            };
            let second_rule = match &le.second_rule {
                Some(s) => s,
                None => {
                    return Err(Status::internal("empty second rule"));
                },
            };
            let second = match check_rule(second_rule, context) {
                Ok(b) => b,
                Err(e) => {
                    return Err(e);
                },
            };
            match le.logical_operator {
                LogicalOperator::And => Ok(first && second),
                LogicalOperator::Or => Ok(first || second),
                LogicalOperator::Unspecified => Err(Status::internal("unknown logical operator")),
            }
        },
        RuleKind::Atom(a) => {
            let op = if a.comparison_operator == ComparisonOperator::NotEquals {
                ComparisonOperator::Unspecified
            } else {
                a.comparison_operator
            };
            check_atom(a, op, context)
        },
    }
}

} // verus!
