//! Evaluation of a feature's tree of constraints against a context.
use vstd::prelude::*;

use crate::rules_v3::{check_rule, rule_view, spec_check_rule, Rule, RuleView};
use crate::status::{status, Code, Status, StatusView};
use crate::value::{Any, AnyView, Context, Value};

verus! {

/// Information about the evaluation that is not part of the client's context:
/// the namespace and name of the feature being evaluated.
#[derive(Debug)]
pub struct EvalContext {
    pub namespace: String,
    pub feature_name: String,
}

pub struct EvalContextView {
    pub namespace: Seq<char>,
    pub feature_name: Seq<char>,
}

impl View for EvalContext {
    type V = EvalContextView;

    open spec fn view(&self) -> EvalContextView {
        EvalContextView { namespace: self.namespace@, feature_name: self.feature_name@ }
    }
}


/// The type of the value that a feature evaluates to.
#[derive(Clone, Copy, Debug, PartialEq, Eq, Structural)]
pub enum FeatureType {
    Unspecified,
    Bool,
    Int,
    Float,
    String,
    Json,
    Proto,
}

/// The name of a feature type in the protobuf definition.
pub open spec fn feature_type_name(t: FeatureType) -> Seq<char> {
    match t {
        FeatureType::Unspecified => "FEATURE_TYPE_UNSPECIFIED"@,
        FeatureType::Bool => "FEATURE_TYPE_BOOL"@,
        FeatureType::Int => "FEATURE_TYPE_INT"@,
        FeatureType::Float => "FEATURE_TYPE_FLOAT"@,
        FeatureType::String => "FEATURE_TYPE_STRING"@,
        FeatureType::Json => "FEATURE_TYPE_JSON"@,
        FeatureType::Proto => "FEATURE_TYPE_PROTO"@,
    }
}

impl FeatureType {
    /// The name of the value in the protobuf definition.
    pub fn as_str_name(&self) -> (r: &'static str)
        ensures
            r@ == feature_type_name(*self),
    {
        match self {
            FeatureType::Unspecified => "FEATURE_TYPE_UNSPECIFIED",
            FeatureType::Bool => "FEATURE_TYPE_BOOL",
            FeatureType::Int => "FEATURE_TYPE_INT",
            FeatureType::Float => "FEATURE_TYPE_FLOAT",
            FeatureType::String => "FEATURE_TYPE_STRING",
            FeatureType::Json => "FEATURE_TYPE_JSON",
            FeatureType::Proto => "FEATURE_TYPE_PROTO",
        }
    }
}

/// A node of a feature's tree: a rule that decides whether the node applies, the
/// value it yields when it does, and the nodes below it.
#[derive(Debug)]
pub struct Constraint {
    pub value: Option<Any>,
    pub rule_ast_new: Option<Rule>,
    pub constraints: Vec<Constraint>,
}

/// The root of a feature's tree: its default value and its top constraints.
#[derive(Debug)]
pub struct Tree {
    pub default: Option<Any>,
    pub constraints: Vec<Constraint>,
}

/// A feature (a dynamic config): its key, description, type and tree.
#[derive(Debug)]
pub struct Feature {
    pub key: String,
    pub description: String,
    pub tree: Option<Tree>,
    pub feature_type: FeatureType,
}

impl Default for Feature {
    /// A feature with no key, description or tree, of unspecified type.
    fn default() -> (r: Self)
        ensures
            r@ == (FeatureView {
                key: Seq::empty(),
                description: Seq::empty(),
                tree: None,
                feature_type: FeatureType::Unspecified,
            }),
    {
        Feature {
            key: String::new(),
            description: String::new(),
            tree: None,
            feature_type: FeatureType::Unspecified,
        }
    }
}

pub struct ConstraintView {
    pub value: Option<AnyView>,
    pub rule: Option<RuleView>,
    pub constraints: Seq<ConstraintView>,
}

pub struct TreeView {
    pub default: Option<AnyView>,
    pub constraints: Seq<ConstraintView>,
}

pub struct FeatureView {
    pub key: Seq<char>,
    pub description: Seq<char>,
    pub tree: Option<TreeView>,
    pub feature_type: FeatureType,
}

pub open spec fn any_option_view(a: Option<Any>) -> Option<AnyView> {
    match a {
        Some(a) => Some(a@),
        None => None,
    }
}

pub open spec fn constraint_view(c: Constraint) -> ConstraintView
    decreases c,
{
    ConstraintView {
        value: any_option_view(c.value),
        rule: match c.rule_ast_new {
            Some(r) => Some(rule_view(r)),
            None => None,
        },
        constraints: constraints_view(c.constraints@),
    }
}

pub open spec fn constraints_view(s: Seq<Constraint>) -> Seq<ConstraintView>
    decreases s,
{
    if s.len() == 0 {
        Seq::empty()
    } else {
        seq![constraint_view(s[0])] + constraints_view(s.subrange(1, s.len() as int))
    }
}

/// The view of a list of constraints is the list of their views.
pub proof fn lemma_constraints_view(s: Seq<Constraint>)
    ensures
        constraints_view(s).len() == s.len(),
        forall|i: int|
            0 <= i < s.len() ==> #[trigger] constraints_view(s)[i] == constraint_view(s[i]),
    decreases s.len(),
{
    if s.len() > 0 {
        lemma_constraints_view(s.subrange(1, s.len() as int));
    }
}

impl View for Constraint {
    type V = ConstraintView;

    open spec fn view(&self) -> ConstraintView {
        constraint_view(*self)
    }
}

impl View for Tree {
    type V = TreeView;

    open spec fn view(&self) -> TreeView {
        TreeView {
            default: any_option_view(self.default),
            constraints: constraints_view(self.constraints@),
        }
    }
}

impl View for Feature {
    type V = FeatureView;

    open spec fn view(&self) -> FeatureView {
        FeatureView {
            key: self.key@,
            description: self.description@,
            tree: match self.tree {
                Some(t) => Some(t@),
                None => None,
            },
            feature_type: self.feature_type,
        }
    }
}

fn clone_any_option(a: &Option<Any>) -> (r: Option<Any>)
    ensures
        any_option_view(r) == any_option_view(*a),
{
    match a {
        Some(v) => Some(v.clone()),
        None => None,
    }
}

fn clone_constraint(c: &Constraint) -> (r: Constraint)
    ensures
        r@ == c@,
    decreases c,
{
    Constraint {
        value: clone_any_option(&c.value),
        rule_ast_new: match &c.rule_ast_new {
            Some(r) => Some(r.clone()),
            None => None,
        },
        constraints: clone_constraints(&c.constraints),
    }
}

fn clone_constraints(cs: &Vec<Constraint>) -> (r: Vec<Constraint>)
    ensures
        constraints_view(r@) == constraints_view(cs@),
    decreases cs,
{
    let mut r: Vec<Constraint> = Vec::new();
    let mut i: usize = 0;
    while i < cs.len()
        invariant
            i <= cs@.len(),
            r@.len() == i,
            forall|j: int|
                0 <= j < i ==> #[trigger] constraint_view(r@[j]) == constraint_view(cs@[j]),
        decreases cs@.len() - i,
    {
        r.push(clone_constraint(&cs[i]));
        i = i + 1;
    }
    proof {
        lemma_constraints_view(r@);
        lemma_constraints_view(cs@);
        assert(constraints_view(r@) =~= constraints_view(cs@));
    }
    r
}

impl Clone for Constraint {
    fn clone(&self) -> (r: Self)
        ensures
            r@ == self@,
    {
        clone_constraint(self)
    }
}

impl Clone for Tree {
    fn clone(&self) -> (r: Self)
        ensures
            r@ == self@,
    {
        Tree { default: clone_any_option(&self.default), constraints: clone_constraints(&self.constraints) }
    }
}

impl Clone for Feature {
    fn clone(&self) -> (r: Self)
        ensures
            r@ == self@,
    {
        Feature {
            key: self.key.clone(),
            description: self.description.clone(),
            tree: match &self.tree {
                Some(t) => Some(t.clone()),
                None => None,
            },
            feature_type: self.feature_type,
        }
    }
}

/// What passing a subtree yields: the value found (none means that the value of
/// the node above is to be used) and the path of child indices that led to it.
pub type PassedEvaluationView = (Option<AnyView>, Seq<usize>);

/// The traversal of a constraint: `None` when its rule fails, else what the
/// first passing child yields when that child found a value, else the
/// constraint's own value with an empty path.
pub open spec fn spec_traverse(
    c: ConstraintView,
    context: Map<Seq<char>, Value>,
    eval_context: EvalContextView,
) -> Result<Option<PassedEvaluationView>, StatusView>
    decreases c,
{
    match c.rule {
        None => Err(status(Code::Internal, "empty rule v3"@)),
        Some(ast) => match spec_check_rule(ast, context, eval_context) {
            Err(e) => Err(e),
            Ok(false) => Ok(None),
            Ok(true) => match spec_search(c.constraints, 0, context, eval_context) {
                Err(e) => Err(e),
                Ok(Some((v, path))) => Ok(Some((Some(v), path))),
                Ok(None) => Ok(Some((c.value, Seq::empty()))),
            },
        },
    }
}

/// The search through children (the first at index `offset`) for a value: the
/// first child that passes ends the search, with its value and the path to it
/// if it found one, and with nothing if it found none; children that do not
/// pass are skipped.
pub open spec fn spec_search(
    children: Seq<ConstraintView>,
    offset: nat,
    context: Map<Seq<char>, Value>,
    eval_context: EvalContextView,
) -> Result<Option<(AnyView, Seq<usize>)>, StatusView>
    decreases children,
{
    if children.len() == 0 {
        Ok(None)
    } else {
        match spec_traverse(children[0], context, eval_context) {
            Err(e) => Err(e),
            Ok(Some((Some(v), path))) => Ok(Some((v, seq![offset as usize] + path))),
            Ok(Some((None, _))) => Ok(None),
            Ok(None) => spec_search(
                children.subrange(1, children.len() as int),
                offset + 1,
                context,
                eval_context,
            ),
        }
    }
}

/// The evaluation of a feature: the value of the first top constraint that
/// passes and found a value, with the path to it, or else the default value
/// with an empty path.
pub open spec fn spec_evaluate(
    feature: FeatureView,
    context: Map<Seq<char>, Value>,
    eval_context: EvalContextView,
) -> Result<(AnyView, Seq<usize>), StatusView> {
    match feature.tree {
        None => Err(status(Code::Internal, "empty tree"@)),
        Some(tree) => match spec_search(tree.constraints, 0, context, eval_context) {
            Err(e) => Err(e),
            Ok(Some((v, path))) => Ok((v, path)),
            Ok(None) => match tree.default {
                None => Err(status(Code::Internal, "empty default value"@)),
                Some(d) => Ok((d, Seq::empty())),
            },
        },
    }
}

pub open spec fn passed_view(p: Option<(Option<Any>, Vec<usize>)>) -> Option<PassedEvaluationView> {
    match p {
        None => None,
        Some((v, path)) => Some((any_option_view(v), path@)),
    }
}

pub open spec fn traverse_view(r: Result<Option<(Option<Any>, Vec<usize>)>, Status>) -> Result<
    Option<PassedEvaluationView>,
    StatusView,
> {
    match r {
        Ok(p) => Ok(passed_view(p)),
        Err(e) => Err(e@),
    }
}

pub open spec fn evaluate_view(r: Result<(Any, Vec<usize>), Status>) -> Result<
    (AnyView, Seq<usize>),
    StatusView,
> {
    match r {
        Ok((v, path)) => Ok((v@, path@)),
        Err(e) => Err(e@),
    }
}

/// The children from position `i` on.
pub open spec fn children_from(children: Seq<ConstraintView>, i: usize) -> Seq<ConstraintView> {
    children.subrange(i as int, children.len() as int)
}

proof fn lemma_children_step(children: Seq<ConstraintView>, list: Seq<Constraint>, i: usize)
    requires
        children == constraints_view(list),
        i < children.len(),
        i < usize::MAX,
    ensures
        children_from(children, i).len() > 0,
        children_from(children, i)[0] == constraint_view(list[i as int]),
        children_from(children, i).subrange(1, children_from(children, i).len() as int)
            == children_from(children, (i + 1) as usize),
{
    lemma_constraints_view(list);
    assert(children_from(children, i).subrange(1, children_from(children, i).len() as int)
        =~= children_from(children, (i + 1) as usize));
}

/// `[i]` followed by `path`.
fn prepend_index(i: usize, path: Vec<usize>) -> (r: Vec<usize>)
    ensures
        r@ == seq![i] + path@,
{
    let mut r: Vec<usize> = Vec::new();
    r.push(i);
    let mut k: usize = 0;
    while k < path.len()
        invariant
            k <= path@.len(),
            r@ == seq![i] + path@.subrange(0, k as int),
        decreases path@.len() - k,
    {
        r.push(path[k]);
        k = k + 1;
        assert(r@ =~= seq![i] + path@.subrange(0, k as int));
    }
    assert(path@.subrange(0, k as int) =~= path@);
    r
}

/// Traverses the subtree below a constraint, evaluating rules on the way.
/// `None` means that the constraint's rule did not pass.
fn traverse(constraint: &Constraint, context: &Context, eval_context: &EvalContext) -> (r: Result<
    Option<(Option<Any>, Vec<usize>)>,
    Status,
>)
    ensures
        traverse_view(r) == spec_traverse(constraint@, context@, eval_context@),
    decreases constraint,
{
    let passes = match &constraint.rule_ast_new {
        Some(ast) => match check_rule(ast, context, eval_context) {
            Ok(b) => b,
            Err(e) => {
                return Err(e);
            },
        },
        None => {
            return Err(Status::internal("empty rule v3"));
        },
    };
    if !passes {
        return Ok(None);
    }
    let ghost children = constraints_view(constraint.constraints@);
    proof {
        lemma_constraints_view(constraint.constraints@);
        assert(children_from(children, 0) =~= children);
    }
    let mut i: usize = 0;
    while i < constraint.constraints.len()
        invariant
            i <= constraint.constraints@.len(),
            children == constraints_view(constraint.constraints@),
            children.len() == constraint.constraints@.len(),
            constraint@.constraints == children,
            constraint@.rule is Some,
            spec_check_rule(constraint@.rule->0, context@, eval_context@) == Ok::<bool, StatusView>(
                true,
            ),
            spec_search(children, 0, context@, eval_context@) == spec_search(
                children_from(children, i),
                i as nat,
                context@,
                eval_context@,
            ),
        decreases constraint.constraints@.len() - i,
    {
        proof {
            lemma_children_step(children, constraint.constraints@, i);
        }
        let child = &constraint.constraints[i];
        match traverse(child, context, eval_context) {
            Err(e) => {
                return Err(e);
            },
            Ok(Some((child_val, child_path))) => {
                match child_val {
                    Some(some_child_val) => {
                        return Ok(Some((Some(some_child_val), prepend_index(i, child_path))));
                    },
                    None => {
                        return Ok(Some((constraint.value.clone(), Vec::new())));
                    },
                }
            },
            Ok(None) => {},
        }
        i = i + 1;
    }
    Ok(Some((constraint.value.clone(), Vec::new())))
}

/// Evaluates a feature's tree in a context: the value that applies, and the
/// path of constraint indices that led to it (empty for the default value).
pub fn evaluate(feature: &Feature, context: &Context, eval_context: &EvalContext) -> (r: Result<
    (Any, Vec<usize>),
    Status,
>)
    ensures
        evaluate_view(r) == spec_evaluate(feature@, context@, eval_context@),
{
    let tree = match &feature.tree {
        Some(t) => t,
        None => {
            return Err(Status::internal("empty tree"));
        },
    };
    let ghost children = constraints_view(tree.constraints@);
    proof {
        lemma_constraints_view(tree.constraints@);
        assert(children_from(children, 0) =~= children);
    }
    let mut i: usize = 0;
    while i < tree.constraints.len()
        invariant
            i <= tree.constraints@.len(),
            children == constraints_view(tree.constraints@),
            children.len() == tree.constraints@.len(),
            tree@.constraints == children,
            feature@.tree == Some(tree@),
            spec_search(children, 0, context@, eval_context@) == spec_search(
                children_from(children, i),
                i as nat,
                context@,
                eval_context@,
            ),
        decreases tree.constraints@.len() - i,
    {
        proof {
            lemma_children_step(children, tree.constraints@, i);
        }
        let constraint = &tree.constraints[i];
        match traverse(constraint, context, eval_context) {
            Err(e) => {
                return Err(e);
            },
            Ok(Some((child_val, child_path))) => {
                match child_val {
                    Some(some_child_val) => {
                        return Ok((some_child_val, prepend_index(i, child_path)));
                    },
                    None => {
                        return match &tree.default {
                            Some(d) => Ok((d.clone(), Vec::new())),
                            None => Err(Status::internal("empty default value")),
                        };
                    },
                }
            },
            Ok(None) => {},
        }
        i = i + 1;
    }
    match &tree.default {
        Some(d) => Ok((d.clone(), Vec::new())),
        None => Err(Status::internal("empty default value")),
    }
}

} // verus!
