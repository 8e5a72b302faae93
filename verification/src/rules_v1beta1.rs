//! The first generation of feature messages: features whose constraints are
//! lists of conditions joined by one linker.
use vstd::prelude::*;

use crate::value::ProtoValue;

verus! {

/// The type of a first-generation feature.
#[derive(Clone, Copy, Debug, PartialEq, Eq, Structural)]
pub enum Type {
    Unspecified,
    Bool,
    Number,
    String,
}

impl Type {
    /// The name of the value in the protobuf definition.
    pub fn as_str_name(&self) -> (r: &'static str)
        ensures
            r@ == match self {
                Type::Unspecified => "TYPE_UNSPECIFIED"@,
                Type::Bool => "TYPE_BOOL"@,
                Type::Number => "TYPE_NUMBER"@,
                Type::String => "TYPE_STRING"@,
            },
    {
        match self {
            Type::Unspecified => "TYPE_UNSPECIFIED",
            Type::Bool => "TYPE_BOOL",
            Type::Number => "TYPE_NUMBER",
            Type::String => "TYPE_STRING",
        }
    }
}

/// How a condition compares the context value (left) with its value (right).
#[derive(Clone, Copy, Debug, PartialEq, Eq, Structural)]
pub enum LogicalOperator {
    Unspecified,
    Equals,
    /// The orderings apply to numbers only.
    LessThan,
    LessThanOrEquals,
    GreaterThan,
    GreaterThanOrEquals,
    /// Containment applies to lists only.
    ContainedWithin,
    NotContainedWithin,
}

impl LogicalOperator {
    /// The name of the value in the protobuf definition.
    pub fn as_str_name(&self) -> (r: &'static str)
        ensures
            r@ == match self {
                LogicalOperator::Unspecified => "LOGICAL_OPERATOR_UNSPECIFIED"@,
                LogicalOperator::Equals => "LOGICAL_OPERATOR_EQUALS"@,
                LogicalOperator::LessThan => "LOGICAL_OPERATOR_LESS_THAN"@,
                LogicalOperator::LessThanOrEquals => "LOGICAL_OPERATOR_LESS_THAN_OR_EQUALS"@,
                LogicalOperator::GreaterThan => "LOGICAL_OPERATOR_GREATER_THAN"@,
                LogicalOperator::GreaterThanOrEquals => "LOGICAL_OPERATOR_GREATER_THAN_OR_EQUALS"@,
                LogicalOperator::ContainedWithin => "LOGICAL_OPERATOR_CONTAINED_WITHIN"@,
                LogicalOperator::NotContainedWithin => "LOGICAL_OPERATOR_NOT_CONTAINED_WITHIN"@,
            },
    {
        match self {
            LogicalOperator::Unspecified => "LOGICAL_OPERATOR_UNSPECIFIED",
            LogicalOperator::Equals => "LOGICAL_OPERATOR_EQUALS",
            LogicalOperator::LessThan => "LOGICAL_OPERATOR_LESS_THAN",
            LogicalOperator::LessThanOrEquals => "LOGICAL_OPERATOR_LESS_THAN_OR_EQUALS",
            LogicalOperator::GreaterThan => "LOGICAL_OPERATOR_GREATER_THAN",
            LogicalOperator::GreaterThanOrEquals => "LOGICAL_OPERATOR_GREATER_THAN_OR_EQUALS",
            LogicalOperator::ContainedWithin => "LOGICAL_OPERATOR_CONTAINED_WITHIN",
            LogicalOperator::NotContainedWithin => "LOGICAL_OPERATOR_NOT_CONTAINED_WITHIN",
        }
    }
}

/// How the conditions of a constraint are joined.
#[derive(Clone, Copy, Debug, PartialEq, Eq, Structural)]
pub enum ConditionLinker {
    Unspecified,
    And,
    Or,
}

impl ConditionLinker {
    /// The name of the value in the protobuf definition.
    pub fn as_str_name(&self) -> (r: &'static str)
        ensures
            r@ == match self {
                ConditionLinker::Unspecified => "CONDITION_LINKER_UNSPECIFIED"@,
                ConditionLinker::And => "CONDITION_LINKER_AND"@,
                ConditionLinker::Or => "CONDITION_LINKER_OR"@,
            },
    {
        match self {
            ConditionLinker::Unspecified => "CONDITION_LINKER_UNSPECIFIED",
            ConditionLinker::And => "CONDITION_LINKER_AND",
            ConditionLinker::Or => "CONDITION_LINKER_OR",
        }
    }
}

/// A comparison of the context value at `context_key` with a value.
#[derive(Debug)]
pub struct Condition {
    pub context_key: String,
    pub comparison_value: Option<ProtoValue>,
    pub logical_operator: LogicalOperator,
}

/// Conditions joined by one linker (unset when there is one condition), and the
/// value that applies when they hold.
#[derive(Debug)]
pub struct Constraint {
    pub conditions: Vec<Condition>,
    pub condition_linker: ConditionLinker,
    pub resulting_value: Option<ProtoValue>,
}

/// A first-generation feature: its name, type, default value and constraints.
#[derive(Debug)]
pub struct Feature {
    pub name: String,
    pub feature_type: Type,
    pub default_value: Option<ProtoValue>,
    pub constraints: Vec<Constraint>,
}

} // verus!
