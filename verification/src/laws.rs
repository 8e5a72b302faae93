//! Properties that hold of the library as a whole: of rules, bucketing,
//! evaluation, stores and their listings, registration, loading features
//! from disk, and the parsing of repository urls.
use vstd::prelude::*;

use crate::evaluator::{spec_evaluate, spec_search, ConstraintView, EvalContextView, FeatureView, TreeView};
use crate::functions::{bucket_value_bytes, spec_bucket};
use crate::rules_v3::{
    atom_with_operator, spec_check_atom, spec_check_rule, spec_check_rules, spec_fold_rules,
    AtomView, BucketView, ComparisonOperator, LogicalOperator, RuleKindView, RuleView,
};
use crate::backend::{Feature as Entry, Namespace};
use crate::store::{contents_map, insert_features, is_filtered_contents, lists_key, passes_filter, FeatureInfoView};
use crate::bootstrap::decimal_ascii;
use crate::types::{git_suffix, spec_owner_and_repo, trim_git_suffix};
use crate::value::{AnyView, Value};

verus! {

/// A `Present` atom is true exactly when the context has its key, whatever
/// else it holds.
pub proof fn law_present_is_key_presence(a: AtomView, context: Map<Seq<char>, Value>)
    requires
        a.comparison_operator == ComparisonOperator::Present,
    ensures
        spec_check_atom(a, context) == Ok::<bool, crate::status::StatusView>(
            context.contains_key(a.context_key),
        ),
{
}

/// Every comparison other than `Present` is false when the context lacks its
/// key (given a value to compare with).
pub proof fn law_missing_key_is_false(a: AtomView, context: Map<Seq<char>, Value>)
    requires
        a.comparison_operator != ComparisonOperator::Present,
        a.comparison_value is Some,
        !context.contains_key(a.context_key),
    ensures
        spec_check_atom(a, context) == Ok::<bool, crate::status::StatusView>(false),
        crate::rules::spec_check_atom_v2(a, context) == Ok::<bool, crate::status::StatusView>(false),
{
}

/// With its key present, a `NotEquals` atom is the negation of the `Equals`
/// atom on the same key and value, errors included.
pub proof fn law_not_equals_negates_equals(a: AtomView, context: Map<Seq<char>, Value>)
    requires
        a.comparison_operator == ComparisonOperator::NotEquals,
        context.contains_key(a.context_key),
    ensures
        spec_check_atom(a, context) == match spec_check_atom(
            atom_with_operator(a, ComparisonOperator::Equals),
            context,
        ) {
            Ok(b) => Ok::<bool, crate::status::StatusView>(!b),
            Err(e) => Err(e),
        },
{
}

/// A negation is true exactly when the rule it holds is false, and fails
/// when it does.
pub proof fn law_not_negates(inner: RuleView, context: Map<Seq<char>, Value>, eval_context: EvalContextView)
    ensures
        spec_check_rule(
            RuleView { rule: Some(RuleKindView::Not(Box::new(inner))) },
            context,
            eval_context,
        ) == match spec_check_rule(inner, context, eval_context) {
            Ok(b) => Ok::<bool, crate::status::StatusView>(!b),
            Err(e) => Err(e),
        },
{
}

/// When no rule fails, folding with `And` gives whether all rules are true,
/// and with `Or` whether some rule is.
#[verifier::spinoff_prover]
proof fn lemma_fold_all_any(
    rules: Seq<RuleView>,
    op: LogicalOperator,
    context: Map<Seq<char>, Value>,
    eval_context: EvalContextView,
)
    requires
        forall|i: int| 0 <= i < rules.len() ==> #[trigger] spec_check_rule(rules[i], context, eval_context) is Ok,
    ensures
        spec_fold_rules(rules, op, context, eval_context) == Ok::<bool, crate::status::StatusView>(
            if op == LogicalOperator::And {
                forall|i: int|
                    0 <= i < rules.len() ==> #[trigger] spec_check_rule(rules[i], context, eval_context)
                        == Ok::<bool, crate::status::StatusView>(true)
            } else {
                exists|i: int|
                    0 <= i < rules.len() && #[trigger] spec_check_rule(rules[i], context, eval_context)
                        == Ok::<bool, crate::status::StatusView>(true)
            },
        ),
    decreases rules.len(),
{
    if rules.len() > 0 {
        let prefix = rules.subrange(0, rules.len() - 1);
        assert forall|i: int| 0 <= i < prefix.len() implies #[trigger] spec_check_rule(
            prefix[i],
            context,
            eval_context,
        ) is Ok by {
            assert(prefix[i] == rules[i]);
        }
        lemma_fold_all_any(prefix, op, context, eval_context);
        let last = rules.len() - 1;
        assert(spec_check_rule(rules[last], context, eval_context) is Ok);
        if op == LogicalOperator::And {
            if forall|i: int|
                0 <= i < rules.len() ==> #[trigger] spec_check_rule(rules[i], context, eval_context)
                    == Ok::<bool, crate::status::StatusView>(true) {
                assert forall|i: int| 0 <= i < prefix.len() implies #[trigger] spec_check_rule(
                    prefix[i],
                    context,
                    eval_context,
                ) == Ok::<bool, crate::status::StatusView>(true) by {
                    assert(prefix[i] == rules[i]);
                }
            } else {
                let w = choose|i: int|
                    0 <= i < rules.len() && !(#[trigger] spec_check_rule(rules[i], context, eval_context)
                        == Ok::<bool, crate::status::StatusView>(true));
                if w < last {
                    assert(prefix[w] == rules[w]);
                }
            }
        } else {
            if exists|i: int|
                0 <= i < rules.len() && #[trigger] spec_check_rule(rules[i], context, eval_context)
                    == Ok::<bool, crate::status::StatusView>(true) {
                let w = choose|i: int|
                    0 <= i < rules.len() && #[trigger] spec_check_rule(rules[i], context, eval_context)
                        == Ok::<bool, crate::status::StatusView>(true);
                if w < last {
                    assert(prefix[w] == rules[w]);
                }
            } else {
                assert forall|i: int| 0 <= i < prefix.len() implies !(#[trigger] spec_check_rule(
                    prefix[i],
                    context,
                    eval_context,
                ) == Ok::<bool, crate::status::StatusView>(true)) by {
                    assert(prefix[i] == rules[i]);
                }
            }
        }
    }
}

/// A logical expression whose rules all evaluate is, with `And`, true exactly
/// when all of its rules are, and with `Or` when some rule is.
pub proof fn law_logical_expression_is_all_or_any(
    rules: Seq<RuleView>,
    op: LogicalOperator,
    context: Map<Seq<char>, Value>,
    eval_context: EvalContextView,
)
    requires
        rules.len() > 0,
        op != LogicalOperator::Unspecified,
        forall|i: int| 0 <= i < rules.len() ==> #[trigger] spec_check_rule(rules[i], context, eval_context) is Ok,
    ensures
        op == LogicalOperator::And ==> spec_check_rules(rules, op, context, eval_context) == Ok::<
            bool,
            crate::status::StatusView,
        >(
            forall|i: int|
                0 <= i < rules.len() ==> #[trigger] spec_check_rule(rules[i], context, eval_context)
                    == Ok::<bool, crate::status::StatusView>(true),
        ),
        op == LogicalOperator::Or ==> spec_check_rules(rules, op, context, eval_context) == Ok::<
            bool,
            crate::status::StatusView,
        >(
            exists|i: int|
                0 <= i < rules.len() && #[trigger] spec_check_rule(rules[i], context, eval_context)
                    == Ok::<bool, crate::status::StatusView>(true),
        ),
{
    lemma_fold_all_any(rules, op, context, eval_context);
}

/// A bucket over a key that the context lacks does not pass.
pub proof fn law_bucket_missing_key(b: BucketView, context: Map<Seq<char>, Value>, eval_context: EvalContextView)
    requires
        !context.contains_key(b.context_key),
    ensures
        spec_bucket(b, context, eval_context) == Ok::<bool, crate::status::StatusView>(false),
{
}

/// Raising a bucket's threshold keeps every value that passed in the bucket.
pub proof fn law_bucket_threshold_monotone(
    b: BucketView,
    higher: u32,
    context: Map<Seq<char>, Value>,
    eval_context: EvalContextView,
)
    requires
        b.threshold <= higher,
        spec_bucket(b, context, eval_context) == Ok::<bool, crate::status::StatusView>(true),
    ensures
        spec_bucket(
            BucketView { context_key: b.context_key, threshold: higher },
            context,
            eval_context,
        ) == Ok::<bool, crate::status::StatusView>(true),
{
}

/// A bucket with a threshold of at least 99999 (that is, 100%) holds every
/// value that can be bucketed.
pub proof fn law_full_bucket_holds_all(b: BucketView, context: Map<Seq<char>, Value>, eval_context: EvalContextView)
    requires
        b.threshold >= 99999,
        context.contains_key(b.context_key),
        context[b.context_key]@ matches Some(k) && bucket_value_bytes(k) is Some,
    ensures
        spec_bucket(b, context, eval_context) == Ok::<bool, crate::status::StatusView>(true),
{
}

/// A feature without constraints evaluates to its default value, by an
/// empty path.
pub proof fn law_no_constraints_gives_default(
    feature: FeatureView,
    default: AnyView,
    context: Map<Seq<char>, Value>,
    eval_context: EvalContextView,
)
    requires
        feature.tree == Some(TreeView { default: Some(default), constraints: Seq::empty() }),
    ensures
        spec_evaluate(feature, context, eval_context) == Ok::<
            (AnyView, Seq<usize>),
            crate::status::StatusView,
        >((default, Seq::empty())),
{
}

/// Without filters, the contents listed hold every feature of the store.
pub proof fn law_unfiltered_contents_list_everything(
    cache: Map<(Seq<char>, Seq<char>), FeatureInfoView>,
    res: Seq<crate::backend::Namespace>,
    k: (Seq<char>, Seq<char>),
)
    requires
        is_filtered_contents(cache, Seq::empty(), Seq::empty(), res),
        cache.contains_key(k),
    ensures
        lists_key(res, k),
{
}

/// A `.git` suffix on a repository url changes neither the owner nor the
/// repository it names.
pub proof fn law_git_suffix_is_ignored(url: Seq<char>)
    ensures
        spec_owner_and_repo(url + git_suffix()) == spec_owner_and_repo(url),
{
    let s = url + git_suffix();
    assert(s.subrange(s.len() - 4, s.len() as int) =~= git_suffix());
    assert(s.subrange(0, s.len() - 4) =~= url);
    assert(trim_git_suffix(s) == trim_git_suffix(url));
}

/// In rules of the second generation, a logical expression whose two rules
/// evaluate is the conjunction (`And`) or disjunction (`Or`) of their
/// results.
pub proof fn law_binary_expression(
    first: crate::rules::RuleView,
    second: crate::rules::RuleView,
    op: LogicalOperator,
    context: Map<Seq<char>, Value>,
)
    requires
        op != LogicalOperator::Unspecified,
        crate::rules::spec_check_rule(first, context) is Ok,
        crate::rules::spec_check_rule(second, context) is Ok,
    ensures
        crate::rules::spec_check_rule(
            crate::rules::RuleView {
                rule: Some(
                    crate::rules::RuleKindView::LogicalExpression(
                        Some(Box::new(first)),
                        Some(Box::new(second)),
                        op,
                    ),
                ),
            },
            context,
        ) == Ok::<bool, crate::status::StatusView>(
            if op == LogicalOperator::And {
                crate::rules::spec_check_rule(first, context)->Ok_0 && crate::rules::spec_check_rule(
                    second,
                    context,
                )->Ok_0
            } else {
                crate::rules::spec_check_rule(first, context)->Ok_0 || crate::rules::spec_check_rule(
                    second,
                    context,
                )->Ok_0
            },
        ),
{
}

/// A regular file that is not named `<feature>.proto.bin` adds nothing to
/// its namespace, once it could be read.
pub proof fn law_other_files_are_skipped(
    file: crate::repo_dir::FileEntryView,
    hash: spec_fn(Seq<u8>) -> Seq<char>,
)
    requires
        file.contents is Ok,
        file.name matches Some(n) && !crate::text::is_suffix(crate::bootstrap::proto_bin_suffix(), n),
    ensures
        crate::repo_dir::entry_feature(crate::repo_dir::DirEntryView::File(file), hash) == Ok::<
            Option<crate::backend::FeatureEntryView>,
            crate::status::StatusView,
        >(None),
{
}

/// Inserting the features of a namespace adds exactly their keys.
#[verifier::spinoff_prover]
proof fn lemma_insert_features_keys(
    m: Map<(Seq<char>, Seq<char>), FeatureInfoView>,
    namespace: Seq<char>,
    features: Seq<Entry>,
    k: (Seq<char>, Seq<char>),
)
    ensures
        insert_features(m, namespace, features).contains_key(k) <==> (m.contains_key(k) || exists|j: int|
            0 <= j < features.len() && k == (namespace, #[trigger] features[j].name@)),
    decreases features.len(),
{
    if features.len() > 0 {
        let prefix = features.drop_last();
        let last = features.len() - 1;
        lemma_insert_features_keys(m, namespace, prefix, k);
        let inner = insert_features(m, namespace, prefix);
        let key = (namespace, features[last].name@);
        assert(insert_features(m, namespace, features) == inner.insert(
            key,
            FeatureInfoView { feature: features[last].feature->0@, version: features[last].sha@ },
        ));
        let listed = exists|j: int| 0 <= j < features.len() && k == (namespace, #[trigger] features[j].name@);
        let listed_before = exists|j: int|
            0 <= j < prefix.len() && k == (namespace, #[trigger] prefix[j].name@);
        if listed {
            let j = choose|j: int| 0 <= j < features.len() && k == (namespace, #[trigger] features[j].name@);
            if j < last {
                assert(prefix[j] == features[j]);
                assert(k == (namespace, prefix[j].name@));
                assert(listed_before);
            } else {
                assert(k == key);
            }
        }
        if listed_before {
            let j = choose|j: int| 0 <= j < prefix.len() && k == (namespace, #[trigger] prefix[j].name@);
            assert(prefix[j] == features[j]);
            assert(k == (namespace, features[j].name@));
            assert(listed);
        }
        if k == key {
            assert(k == (namespace, features[last].name@));
            assert(listed);
        }
    }
}

/// The store built from a repository's contents holds a feature under a
/// (namespace, feature) key exactly when some namespace of that name lists a
/// feature of that name: nothing listed is lost, and nothing else appears.
#[verifier::spinoff_prover]
pub proof fn law_store_holds_exactly_the_listed_features(
    namespaces: Seq<Namespace>,
    k: (Seq<char>, Seq<char>),
)
    ensures
        contents_map(namespaces).contains_key(k) <==> exists|i: int, j: int|
            0 <= i < namespaces.len() && 0 <= j < namespaces[i].features@.len() && k == (
                namespaces[i].name@,
                #[trigger] namespaces[i].features@[j].name@,
            ),
    decreases namespaces.len(),
{
    if namespaces.len() > 0 {
        let prefix = namespaces.drop_last();
        let last = namespaces.len() - 1;
        law_store_holds_exactly_the_listed_features(prefix, k);
        lemma_insert_features_keys(
            contents_map(prefix),
            namespaces[last].name@,
            namespaces[last].features@,
            k,
        );
        if exists|i: int, j: int|
            0 <= i < namespaces.len() && 0 <= j < namespaces[i].features@.len() && k == (
                namespaces[i].name@,
                #[trigger] namespaces[i].features@[j].name@,
            ) {
            let (i, j) = choose|i: int, j: int|
                0 <= i < namespaces.len() && 0 <= j < namespaces[i].features@.len() && k == (
                    namespaces[i].name@,
                    #[trigger] namespaces[i].features@[j].name@,
                );
            if i < last {
                assert(prefix[i] == namespaces[i]);
                assert(k == (prefix[i].name@, prefix[i].features@[j].name@));
            } else {
                assert(k == (namespaces[last].name@, namespaces[last].features@[j].name@));
            }
        }
        if exists|i: int, j: int|
            0 <= i < prefix.len() && 0 <= j < prefix[i].features@.len() && k == (
                prefix[i].name@,
                #[trigger] prefix[i].features@[j].name@,
            ) {
            let (i, j) = choose|i: int, j: int|
                0 <= i < prefix.len() && 0 <= j < prefix[i].features@.len() && k == (
                    prefix[i].name@,
                    #[trigger] prefix[i].features@[j].name@,
                );
            assert(prefix[i] == namespaces[i]);
            assert(k == (namespaces[i].name@, namespaces[i].features@[j].name@));
        }
        if exists|j: int|
            0 <= j < namespaces[last].features@.len() && k == (
                namespaces[last].name@,
                #[trigger] namespaces[last].features@[j].name@,
            ) {
            let j = choose|j: int|
                0 <= j < namespaces[last].features@.len() && k == (
                    namespaces[last].name@,
                    #[trigger] namespaces[last].features@[j].name@,
                );
            assert(k == (namespaces[last].name@, namespaces[last].features@[j].name@));
        }
    }
}

/// What is read from a context is what was last written to it, and writing
/// a key leaves the other keys as they were.
pub proof fn law_context_read_after_write(
    context: Map<Seq<char>, Value>,
    key: Seq<char>,
    value: Value,
    other: Seq<char>,
)
    requires
        other != key,
    ensures
        context.insert(key, value).contains_key(key),
        context.insert(key, value)[key] == value,
        context.insert(key, value).contains_key(other) == context.contains_key(other),
        context.contains_key(other) ==> context.insert(key, value)[other] == context[other],
{
}

/// Filtering by a namespace and a feature lists nothing but that feature of
/// that namespace.
pub proof fn law_filters_list_only_what_they_name(
    cache: Map<(Seq<char>, Seq<char>), FeatureInfoView>,
    namespace: Seq<char>,
    feature: Seq<char>,
    res: Seq<Namespace>,
    i: int,
    j: int,
)
    requires
        namespace.len() > 0,
        feature.len() > 0,
        is_filtered_contents(cache, namespace, feature, res),
        0 <= i < res.len(),
        0 <= j < res[i].features@.len(),
    ensures
        res[i].name@ == namespace,
        res[i].features@[j].name@ == feature,
{
    assert(crate::store::is_filtered_group(cache, namespace, feature, res[i]));
    assert(crate::store::passes_filter((res[i].name@, res[i].features@[j].name@), namespace, feature));
}

/// Loading a namespace from the same directory entries, the bootstrap and
/// the fallback agree: both succeed with the same features and shas, or both
/// fail with the same error, unless libgit2 refuses to hash a feature file.
pub proof fn law_bootstrap_and_fallback_agree(
    namespace: Seq<char>,
    entries: Seq<crate::repo_dir::DirEntryView>,
    from_bootstrap: Result<Namespace, crate::status::Status>,
    from_fallback: Result<Namespace, crate::status::Status>,
)
    requires
        crate::bootstrap::bootstrap_loaded(namespace, entries, from_bootstrap),
        crate::fallback::fallback_loaded(namespace, entries, from_fallback),
        !crate::fallback::hash_refused_at(entries),
    ensures
        from_bootstrap is Ok <==> from_fallback is Ok,
        from_bootstrap matches Ok(b) ==> from_fallback matches Ok(f) && b.name@ == f.name@
            && crate::repo_dir::features_view(b.features@) == crate::repo_dir::features_view(
            f.features@,
        ),
        from_bootstrap matches Err(b) ==> from_fallback matches Err(f) && b@ == f@,
{
}


/// Once a registration has completed, every later one whose calls succeed
/// is refused as already made, and the store keeps its contents, version
/// and credentials.
pub proof fn law_later_registrations_are_ignored(
    before: crate::remote_store::Store,
    after: crate::remote_store::Store,
    repo_key: crate::types::RepositoryKey,
    api_key: Seq<char>,
    session_key: String,
    contents: crate::backend::GetRepositoryContentsResponse,
    r: Result<(), crate::status::Status>,
)
    requires
        before.registered(),
        crate::remote_store::Store::registers(
            before,
            after,
            repo_key,
            api_key,
            Ok(session_key),
            Some(Ok(contents)),
            r,
        ),
    ensures
        r matches Err(e) && e@.code == crate::status::Code::AlreadyExists,
        after.registered(),
        after.features() == before.features(),
        after.version() == before.version(),
        after.credentials() == before.credentials(),
{
}

/// A registration whose call fails leaves the store unregistered and as it
/// was, so a retry whose calls succeed registers it with the contents and
/// the session that the retry obtained.
pub proof fn law_failed_registration_can_be_retried(
    s0: crate::remote_store::Store,
    s1: crate::remote_store::Store,
    s2: crate::remote_store::Store,
    repo_key: crate::types::RepositoryKey,
    api_key: Seq<char>,
    failed_session: Result<String, String>,
    failed_contents: Option<Result<crate::backend::GetRepositoryContentsResponse, crate::status::Status>>,
    r1: Result<(), crate::status::Status>,
    session_key: String,
    contents: crate::backend::GetRepositoryContentsResponse,
    r2: Result<(), crate::status::Status>,
)
    requires
        !s0.registered(),
        failed_session is Err || failed_contents is Some && failed_contents->0 is Err,
        crate::remote_store::Store::registers(s0, s1, repo_key, api_key, failed_session, failed_contents, r1),
        crate::remote_store::Store::registers(s1, s2, repo_key, api_key, Ok(session_key), Some(Ok(contents)), r2),
    ensures
        r1 is Err,
        !s1.registered(),
        s1.features() == s0.features(),
        s1.version() == s0.version(),
        r2 is Ok,
        s2.registered(),
        s2.features() == contents_map(contents.namespaces@),
        s2.version() == contents.commit_sha@,
        s2.credentials().session_key == session_key@,
{
}


/// The store entry that a listed feature gives.
pub open spec fn entry_info(f: Entry) -> FeatureInfoView {
    FeatureInfoView { feature: f.feature->0@, version: f.sha@ }
}

/// Inserting features under keys other than `k` leaves `k` as it was.
proof fn lemma_insert_features_other(
    m: Map<(Seq<char>, Seq<char>), FeatureInfoView>,
    namespace: Seq<char>,
    features: Seq<Entry>,
    k: (Seq<char>, Seq<char>),
)
    requires
        forall|j: int| 0 <= j < features.len() ==> k != (namespace, #[trigger] features[j].name@),
    ensures
        insert_features(m, namespace, features).contains_key(k) == m.contains_key(k),
        insert_features(m, namespace, features)[k] == m[k],
    decreases features.len(),
{
    if features.len() > 0 {
        let prefix = features.drop_last();
        assert forall|j: int| 0 <= j < prefix.len() implies k != (namespace, #[trigger] prefix[j].name@) by {
            assert(prefix[j] == features[j]);
        }
        lemma_insert_features_other(m, namespace, prefix, k);
        assert(k != (namespace, features[features.len() - 1].name@));
    }
}

/// Inserting features, the last one listed under a key is what the key holds.
proof fn lemma_insert_features_last(
    m: Map<(Seq<char>, Seq<char>), FeatureInfoView>,
    namespace: Seq<char>,
    features: Seq<Entry>,
    j: int,
)
    requires
        0 <= j < features.len(),
        forall|l: int| j < l < features.len() ==> #[trigger] features[l].name@ != features[j].name@,
    ensures
        insert_features(m, namespace, features).contains_key((namespace, features[j].name@)),
        insert_features(m, namespace, features)[(namespace, features[j].name@)] == entry_info(features[j]),
    decreases features.len(),
{
    let last = features.len() - 1;
    if j < last {
        let prefix = features.drop_last();
        assert(prefix[j] == features[j]);
        assert forall|l: int| j < l < prefix.len() implies #[trigger] prefix[l].name@ != prefix[j].name@ by {
            assert(prefix[l] == features[l]);
        }
        lemma_insert_features_last(m, namespace, prefix, j);
        assert(features[last].name@ != features[j].name@);
    }
}

/// A store built from a repository's contents answers, for a feature that
/// its namespace lists, what the last listing of that (namespace, feature)
/// pair holds: its contents and its git sha.
#[verifier::spinoff_prover]
pub proof fn law_store_answers_the_last_listing(namespaces: Seq<Namespace>, i: int, j: int)
    requires
        0 <= i < namespaces.len(),
        0 <= j < namespaces[i].features@.len(),
        forall|l: int|
            j < l < namespaces[i].features@.len() ==> #[trigger] namespaces[i].features@[l].name@
                != namespaces[i].features@[j].name@,
        forall|n: int, l: int|
            i < n < namespaces.len() && 0 <= l < namespaces[n].features@.len() ==> (
            #[trigger] namespaces[n].features@[l].name@, namespaces[n].name@) != (
            namespaces[i].features@[j].name@, namespaces[i].name@),
    ensures
        contents_map(namespaces).contains_key((namespaces[i].name@, namespaces[i].features@[j].name@)),
        contents_map(namespaces)[(namespaces[i].name@, namespaces[i].features@[j].name@)]
            == entry_info(namespaces[i].features@[j]),
    decreases namespaces.len(),
{
    let last = namespaces.len() - 1;
    let prefix = namespaces.drop_last();
    let k = (namespaces[i].name@, namespaces[i].features@[j].name@);
    if i == last {
        lemma_insert_features_last(contents_map(prefix), namespaces[last].name@, namespaces[last].features@, j);
    } else {
        assert(prefix[i] == namespaces[i]);
        assert forall|n: int, l: int|
            i < n < prefix.len() && 0 <= l < prefix[n].features@.len() implies (
            #[trigger] prefix[n].features@[l].name@, prefix[n].name@) != (
            prefix[i].features@[j].name@, prefix[i].name@) by {
            assert(prefix[n] == namespaces[n]);
        }
        law_store_answers_the_last_listing(prefix, i, j);
        assert forall|l: int| 0 <= l < namespaces[last].features@.len() implies k != (
            namespaces[last].name@,
            #[trigger] namespaces[last].features@[l].name@,
        ) by {
            assert((namespaces[last].features@[l].name@, namespaces[last].name@) != (
                namespaces[i].features@[j].name@, namespaces[i].name@));
        }
        lemma_insert_features_other(contents_map(prefix), namespaces[last].name@, namespaces[last].features@, k);
    }
}


/// Every list of constraints in the tree, at every depth, is short enough
/// for its positions to be `usize`s, as it is in any tree held in memory.
pub open spec fn constraints_fit(cs: Seq<ConstraintView>) -> bool
    decreases cs,
{
    &&& cs.len() <= usize::MAX
    &&& cs.len() > 0 ==> constraint_fits(cs[0]) && constraints_fit(cs.subrange(1, cs.len() as int))
}

/// The constraints below `c` fit (see `constraints_fit`).
pub open spec fn constraint_fits(c: ConstraintView) -> bool
    decreases c,
{
    constraints_fit(c.constraints)
}

/// Whether the rule of `c` holds in the context.
pub open spec fn constraint_passes(
    c: ConstraintView,
    context: Map<Seq<char>, Value>,
    eval_context: EvalContextView,
) -> bool {
    c.rule matches Some(r) && spec_check_rule(r, context, eval_context) == Ok::<bool, crate::status::StatusView>(true)
}

/// Whether the rule of `c` is false in the context.
pub open spec fn constraint_fails(
    c: ConstraintView,
    context: Map<Seq<char>, Value>,
    eval_context: EvalContextView,
) -> bool {
    c.rule matches Some(r) && spec_check_rule(r, context, eval_context) == Ok::<bool, crate::status::StatusView>(false)
}

/// Whether `path` leads through `children` to a node that holds `v`: at
/// each step the chosen constraint is the first whose rule holds (every
/// earlier sibling's rule is false), and at the end the node's own children
/// select no value.
pub open spec fn leads_to(
    children: Seq<ConstraintView>,
    path: Seq<usize>,
    v: AnyView,
    context: Map<Seq<char>, Value>,
    eval_context: EvalContextView,
) -> bool
    decreases path.len(),
{
    path.len() > 0 && {
        let i = path[0] as int;
        &&& i < children.len()
        &&& forall|j: int| 0 <= j < i ==> #[trigger] constraint_fails(children[j], context, eval_context)
        &&& constraint_passes(children[i], context, eval_context)
        &&& if path.len() == 1 {
            &&& children[i].value == Some(v)
            &&& spec_search(children[i].constraints, 0, context, eval_context) == Ok::<
                Option<(AnyView, Seq<usize>)>,
                crate::status::StatusView,
            >(None)
        } else {
            leads_to(children[i].constraints, path.drop_first(), v, context, eval_context)
        }
    }
}

/// A search that finds a value finds it along a path of at least one step.
proof fn lemma_search_path_nonempty(
    children: Seq<ConstraintView>,
    offset: nat,
    context: Map<Seq<char>, Value>,
    eval_context: EvalContextView,
)
    ensures
        spec_search(children, offset, context, eval_context) matches Ok(Some((_, p))) ==> p.len() > 0,
    decreases children.len(),
{
    if children.len() > 0 {
        lemma_search_path_nonempty(children.subrange(1, children.len() as int), offset + 1, context, eval_context);
    }
}

/// One level of a successful search: the first child whose rule holds is
/// at the path's first position (counted from `offset`), and what lies
/// below it is what that child's own search found.
proof fn lemma_search_step(
    children: Seq<ConstraintView>,
    offset: nat,
    context: Map<Seq<char>, Value>,
    eval_context: EvalContextView,
    v: AnyView,
    path: Seq<usize>,
)
    requires
        constraints_fit(children),
        offset + children.len() <= usize::MAX + 1,
        spec_search(children, offset, context, eval_context) == Ok::<
            Option<(AnyView, Seq<usize>)>,
            crate::status::StatusView,
        >(Some((v, path))),
    ensures
        path.len() > 0,
        offset <= path[0],
        path[0] - offset < children.len(),
        forall|j: int| 0 <= j < path[0] - offset ==> #[trigger] constraint_fails(children[j], context, eval_context),
        constraint_passes(children[path[0] - offset], context, eval_context),
        constraints_fit(children[path[0] - offset].constraints),
        path.len() == 1 ==> children[path[0] - offset].value == Some(v) && spec_search(
            children[path[0] - offset].constraints,
            0,
            context,
            eval_context,
        ) == Ok::<Option<(AnyView, Seq<usize>)>, crate::status::StatusView>(None),
        path.len() > 1 ==> spec_search(children[path[0] - offset].constraints, 0, context, eval_context)
            == Ok::<Option<(AnyView, Seq<usize>)>, crate::status::StatusView>(Some((v, path.drop_first()))),
    decreases children.len(),
{
    let c = children[0];
    let rest = children.subrange(1, children.len() as int);
    match crate::evaluator::spec_traverse(c, context, eval_context) {
        Ok(Some((Some(v0), p0))) => {
            assert(path == seq![offset as usize] + p0);
            assert(path[0] == offset);
            assert(constraint_fits(c));
            match spec_search(c.constraints, 0, context, eval_context) {
                Ok(Some((w, p))) => {
                    lemma_search_path_nonempty(c.constraints, 0, context, eval_context);
                    assert(path.drop_first() =~= p0);
                },
                _ => {},
            }
        },
        Ok(None) => {
            lemma_search_step(rest, offset + 1, context, eval_context, v, path);
            let i = path[0] - offset;
            assert(rest[i - 1] == children[i]);
            assert forall|j: int| 0 <= j < i implies #[trigger] constraint_fails(children[j], context, eval_context) by {
                if j > 0 {
                    assert(rest[j - 1] == children[j]);
                }
            }
        },
        _ => {},
    }
}

/// Where a search finds a value, its path leads there (see `leads_to`).
proof fn lemma_search_leads_to(
    children: Seq<ConstraintView>,
    context: Map<Seq<char>, Value>,
    eval_context: EvalContextView,
    v: AnyView,
    path: Seq<usize>,
)
    requires
        constraints_fit(children),
        spec_search(children, 0, context, eval_context) == Ok::<
            Option<(AnyView, Seq<usize>)>,
            crate::status::StatusView,
        >(Some((v, path))),
    ensures
        leads_to(children, path, v, context, eval_context),
    decreases path.len(),
{
    lemma_search_step(children, 0, context, eval_context, v, path);
    if path.len() > 1 {
        let i = path[0] as int;
        lemma_search_leads_to(children[i].constraints, context, eval_context, v, path.drop_first());
    }
}

/// The constraints of a tree held in memory fit (see `constraints_fit`):
/// each list is a `Vec`, whose length is a `usize`.
pub proof fn lemma_constraints_in_memory_fit(s: Seq<crate::evaluator::Constraint>)
    requires
        s.len() <= usize::MAX,
    ensures
        constraints_fit(crate::evaluator::constraints_view(s)),
    decreases s,
{
    crate::evaluator::lemma_constraints_view(s);
    if s.len() > 0 {
        let rest = s.subrange(1, s.len() as int);
        lemma_constraint_in_memory_fits(s[0]);
        lemma_constraints_in_memory_fit(rest);
        crate::evaluator::lemma_constraints_view(rest);
        let v = crate::evaluator::constraints_view(s);
        assert(v.subrange(1, v.len() as int) =~= crate::evaluator::constraints_view(rest));
    }
}

/// The constraints below a constraint held in memory fit.
proof fn lemma_constraint_in_memory_fits(c: crate::evaluator::Constraint)
    ensures
        constraint_fits(crate::evaluator::constraint_view(c)),
    decreases c,
{
    assert(c.constraints.len() == c.constraints@.len());
    lemma_constraints_in_memory_fit(c.constraints@);
}

/// The path that an evaluation returns with a value from the tree leads to
/// a node that holds that value: every constraint on it passes, each is the
/// first of its siblings to pass, and below the last one nothing selects a
/// deeper value.
pub proof fn law_evaluation_path_leads_to_its_value(
    feature: crate::evaluator::Feature,
    context: Map<Seq<char>, Value>,
    eval_context: EvalContextView,
    v: AnyView,
    path: Seq<usize>,
)
    requires
        spec_evaluate(feature@, context, eval_context) == Ok::<(AnyView, Seq<usize>), crate::status::StatusView>(
            (v, path),
        ),
        path.len() > 0,
    ensures
        feature@.tree matches Some(t) && leads_to(t.constraints, path, v, context, eval_context),
{
    let t = feature.tree->0;
    assert(t.constraints.len() == t.constraints@.len());
    lemma_constraints_in_memory_fit(t.constraints@);
    let tv = feature@.tree->0;
    match spec_search(tv.constraints, 0, context, eval_context) {
        Ok(Some((w, p))) => {
            lemma_search_leads_to(tv.constraints, context, eval_context, v, path);
        },
        _ => {},
    }
}


/// Two listings of a feature agree: same name, same sha, same contents.
pub open spec fn same_listing(x: Entry, y: Entry) -> bool {
    &&& x.name@ == y.name@
    &&& x.sha@ == y.sha@
    &&& x.feature is Some
    &&& y.feature is Some
    &&& x.feature->0@ == y.feature->0@
}

/// Some namespace of `nss` named `name` lists a feature as `f` is listed.
pub open spec fn lists_same(nss: Seq<Namespace>, name: Seq<char>, f: Entry) -> bool {
    exists|a: int, b: int|
        0 <= a < nss.len() && 0 <= b < nss[a].features@.len() && nss[a].name@ == name && same_listing(
            #[trigger] nss[a].features@[b],
            f,
        )
}

/// Within distinct namespace and feature names, each listing is the last of
/// its key.
proof fn lemma_listing_is_last(nss: Seq<Namespace>, i: int, j: int)
    requires
        0 <= i < nss.len(),
        0 <= j < nss[i].features@.len(),
        forall|i: int, j: int| 0 <= i < j < nss.len() ==> nss[i].name@ != nss[j].name@,
        forall|i: int, j1: int, j2: int|
            0 <= i < nss.len() && 0 <= j1 < j2 < nss[i].features@.len() ==> #[trigger] nss[i].features@[j1].name@
                != #[trigger] nss[i].features@[j2].name@,
    ensures
        contents_map(nss).contains_key((nss[i].name@, nss[i].features@[j].name@)),
        contents_map(nss)[(nss[i].name@, nss[i].features@[j].name@)] == entry_info(nss[i].features@[j]),
{
    assert forall|l: int| j < l < nss[i].features@.len() implies #[trigger] nss[i].features@[l].name@
        != nss[i].features@[j].name@ by {
        assert(nss[i].features@[j].name@ != nss[i].features@[l].name@);
    }
    assert forall|n: int, l: int| i < n < nss.len() && 0 <= l < nss[n].features@.len() implies (
        #[trigger] nss[n].features@[l].name@, nss[n].name@) != (nss[i].features@[j].name@, nss[i].name@) by {
        assert(nss[i].name@ != nss[n].name@);
    }
    law_store_answers_the_last_listing(nss, i, j);
}

/// Listing, without filters, the store built from a repository's contents
/// gives those contents back, up to the order of namespaces and features:
/// where namespace names are distinct and so are the feature names within
/// each, every feature listed in the contents is listed again under the same
/// namespace, and nothing else is.
#[verifier::spinoff_prover]
pub proof fn law_unfiltered_listing_gives_the_contents_back(nss: Seq<Namespace>, res: Seq<Namespace>)
    requires
        crate::store::all_features_present(nss),
        forall|i: int, j: int| 0 <= i < j < nss.len() ==> nss[i].name@ != nss[j].name@,
        forall|i: int, j1: int, j2: int|
            0 <= i < nss.len() && 0 <= j1 < j2 < nss[i].features@.len() ==> #[trigger] nss[i].features@[j1].name@
                != #[trigger] nss[i].features@[j2].name@,
        is_filtered_contents(contents_map(nss), Seq::empty(), Seq::empty(), res),
    ensures
        forall|i: int, j: int|
            0 <= i < nss.len() && 0 <= j < nss[i].features@.len() ==> lists_same(
                res,
                nss[i].name@,
                #[trigger] nss[i].features@[j],
            ),
        forall|a: int, b: int|
            0 <= a < res.len() && 0 <= b < res[a].features@.len() ==> lists_same(
                nss,
                res[a].name@,
                #[trigger] res[a].features@[b],
            ),
{
    let cache = contents_map(nss);
    assert forall|i: int, j: int| 0 <= i < nss.len() && 0 <= j < nss[i].features@.len() implies lists_same(
        res,
        nss[i].name@,
        #[trigger] nss[i].features@[j],
    ) by {
        let k = (nss[i].name@, nss[i].features@[j].name@);
        lemma_listing_is_last(nss, i, j);
        assert(passes_filter(k, Seq::empty(), Seq::empty()));
        assert(lists_key(res, k));
        let (a, b) = choose|a: int, b: int|
            0 <= a < res.len() && 0 <= b < res[a].features@.len() && res[a].name@ == k.0
                && #[trigger] res[a].features@[b].name@ == k.1;
        assert(crate::store::is_filtered_group(cache, Seq::empty(), Seq::empty(), res[a]));
        assert(same_listing(res[a].features@[b], nss[i].features@[j]));
    }
    assert forall|a: int, b: int| 0 <= a < res.len() && 0 <= b < res[a].features@.len() implies lists_same(
        nss,
        res[a].name@,
        #[trigger] res[a].features@[b],
    ) by {
        assert(crate::store::is_filtered_group(cache, Seq::empty(), Seq::empty(), res[a]));
        let f = res[a].features@[b];
        let k = (res[a].name@, f.name@);
        assert(cache.contains_key(k));
        law_store_holds_exactly_the_listed_features(nss, k);
        let (i, j) = choose|i: int, j: int|
            0 <= i < nss.len() && 0 <= j < nss[i].features@.len() && k == (
                nss[i].name@,
                #[trigger] nss[i].features@[j].name@,
            );
        lemma_listing_is_last(nss, i, j);
        assert(same_listing(nss[i].features@[j], res[a].features@[b]));
    }
}


/// A constraint whose rule passes and none of whose children pass yields its
/// own value, with an empty path below it.
pub proof fn law_passing_constraint_without_passing_child_yields_its_value(
    c: ConstraintView,
    context: Map<Seq<char>, Value>,
    eval_context: EvalContextView,
)
    requires
        constraint_passes(c, context, eval_context),
        forall|k: int| 0 <= k < c.constraints.len() ==> #[trigger] constraint_fails(c.constraints[k], context, eval_context),
    ensures
        crate::evaluator::spec_traverse(c, context, eval_context) == Ok::<
            Option<crate::evaluator::PassedEvaluationView>,
            crate::status::StatusView,
        >(Some((c.value, Seq::empty()))),
{
    lemma_search_all_fail(c.constraints, 0, context, eval_context);
}

/// A search through children that all fail finds nothing.
proof fn lemma_search_all_fail(
    children: Seq<ConstraintView>,
    offset: nat,
    context: Map<Seq<char>, Value>,
    eval_context: EvalContextView,
)
    requires
        forall|k: int| 0 <= k < children.len() ==> #[trigger] constraint_fails(children[k], context, eval_context),
    ensures
        spec_search(children, offset, context, eval_context) == Ok::<
            Option<(AnyView, Seq<usize>)>,
            crate::status::StatusView,
        >(None),
    decreases children.len(),
{
    if children.len() > 0 {
        let rest = children.subrange(1, children.len() as int);
        assert(constraint_fails(children[0], context, eval_context));
        assert(crate::evaluator::spec_traverse(children[0], context, eval_context) == Ok::<
            Option<crate::evaluator::PassedEvaluationView>,
            crate::status::StatusView,
        >(None));
        assert forall|k: int| 0 <= k < rest.len() implies #[trigger] constraint_fails(rest[k], context, eval_context) by {
            assert(rest[k] == children[k + 1]);
            assert(constraint_fails(children[k + 1], context, eval_context));
        }
        lemma_search_all_fail(rest, offset + 1, context, eval_context);
    }
}

/// A search skips the children before `i` that fail: it goes on as a search
/// from `i`.
proof fn lemma_search_skips_failing(
    children: Seq<ConstraintView>,
    offset: nat,
    i: int,
    context: Map<Seq<char>, Value>,
    eval_context: EvalContextView,
)
    requires
        0 <= i <= children.len(),
        forall|j: int| 0 <= j < i ==> #[trigger] constraint_fails(children[j], context, eval_context),
    ensures
        spec_search(children, offset, context, eval_context) == spec_search(
            children.subrange(i, children.len() as int),
            (offset + i) as nat,
            context,
            eval_context,
        ),
    decreases i,
{
    if i == 0 {
        assert(children.subrange(0, children.len() as int) =~= children);
    } else {
        let rest = children.subrange(1, children.len() as int);
        assert(constraint_fails(children[0], context, eval_context));
        assert(crate::evaluator::spec_traverse(children[0], context, eval_context) == Ok::<
            Option<crate::evaluator::PassedEvaluationView>,
            crate::status::StatusView,
        >(None));
        assert forall|j: int| 0 <= j < i - 1 implies #[trigger] constraint_fails(rest[j], context, eval_context) by {
            assert(rest[j] == children[j + 1]);
            assert(constraint_fails(children[j + 1], context, eval_context));
        }
        lemma_search_skips_failing(rest, offset + 1, i - 1, context, eval_context);
        assert(rest.subrange(i - 1, rest.len() as int) =~= children.subrange(i, children.len() as int));
    }
}

/// Where the first top constraint to pass is at `i`, holds the value `v`,
/// and none of its children passes, the evaluation gives `v` with the path
/// `[i]`: the constraint's own value, not the default.
pub proof fn law_first_passing_constraint_without_passing_child_gives_its_value(
    feature: FeatureView,
    context: Map<Seq<char>, Value>,
    eval_context: EvalContextView,
    i: usize,
    v: AnyView,
)
    requires
        feature.tree matches Some(t) && {
            &&& i < t.constraints.len()
            &&& forall|j: int| 0 <= j < i ==> #[trigger] constraint_fails(t.constraints[j], context, eval_context)
            &&& constraint_passes(t.constraints[i as int], context, eval_context)
            &&& t.constraints[i as int].value == Some(v)
            &&& forall|k: int|
                0 <= k < t.constraints[i as int].constraints.len() ==> #[trigger] constraint_fails(
                    t.constraints[i as int].constraints[k],
                    context,
                    eval_context,
                )
        },
    ensures
        spec_evaluate(feature, context, eval_context) == Ok::<(AnyView, Seq<usize>), crate::status::StatusView>(
            (v, seq![i]),
        ),
{
    let t = feature.tree->0;
    let c = t.constraints[i as int];
    lemma_search_skips_failing(t.constraints, 0, i as int, context, eval_context);
    law_passing_constraint_without_passing_child_yields_its_value(c, context, eval_context);
    let rest = t.constraints.subrange(i as int, t.constraints.len() as int);
    assert(rest[0] == c);
    assert(seq![i] + Seq::<usize>::empty() =~= seq![i]);
}

/// A boolean comparison value and a boolean context value are `Equals`
/// exactly when they are the same boolean, and `NotEquals` exactly when they
/// differ; in both generations of rules.
pub proof fn law_booleans_compare_by_equality(
    a: AtomView,
    context: Map<Seq<char>, Value>,
    b: bool,
    c: bool,
)
    requires
        a.comparison_operator == ComparisonOperator::Equals || a.comparison_operator
            == ComparisonOperator::NotEquals,
        a.comparison_value == Some(crate::value::ProtoValueView { kind: Some(crate::value::ProtoKindView::BoolValue(b)) }),
        context.contains_key(a.context_key),
        context[a.context_key]@ == Some(crate::value::KindView::BoolValue(c)),
    ensures
        a.comparison_operator == ComparisonOperator::Equals ==> spec_check_atom(a, context) == Ok::<
            bool,
            crate::status::StatusView,
        >(b == c) && crate::rules::spec_check_atom_v2(a, context) == Ok::<bool, crate::status::StatusView>(b == c),
        a.comparison_operator == ComparisonOperator::NotEquals ==> spec_check_atom(a, context) == Ok::<
            bool,
            crate::status::StatusView,
        >(b != c),
{
}

/// For a string comparison value `r` and a string context value `s`:
/// `StartsWith` holds exactly when `s` begins with `r`, `EndsWith` exactly
/// when `s` ends with `r`, and `Contains` exactly when `r` occurs somewhere
/// in `s`; in both generations of rules.
pub proof fn law_string_operators_compare_positions(
    a: AtomView,
    context: Map<Seq<char>, Value>,
    r: Seq<char>,
    s: Seq<char>,
)
    requires
        a.comparison_value == Some(crate::value::ProtoValueView { kind: Some(crate::value::ProtoKindView::StringValue(r)) }),
        context.contains_key(a.context_key),
        context[a.context_key]@ == Some(crate::value::KindView::StringValue(s)),
    ensures
        a.comparison_operator == ComparisonOperator::StartsWith ==> spec_check_atom(a, context) == Ok::<
            bool,
            crate::status::StatusView,
        >(r.len() <= s.len() && s.subrange(0, r.len() as int) == r)
            && crate::rules::spec_check_atom_v2(a, context) == spec_check_atom(a, context),
        a.comparison_operator == ComparisonOperator::EndsWith ==> spec_check_atom(a, context) == Ok::<
            bool,
            crate::status::StatusView,
        >(r.len() <= s.len() && s.subrange(s.len() - r.len(), s.len() as int) == r)
            && crate::rules::spec_check_atom_v2(a, context) == spec_check_atom(a, context),
        a.comparison_operator == ComparisonOperator::Contains ==> spec_check_atom(a, context) == Ok::<
            bool,
            crate::status::StatusView,
        >(exists|i: int| 0 <= i && i + r.len() <= s.len() && #[trigger] s.subrange(i, i + r.len()) == r)
            && crate::rules::spec_check_atom_v2(a, context) == spec_check_atom(a, context),
{
    if a.comparison_operator == ComparisonOperator::Contains {
        let found = exists|i: int| 0 <= i && i + r.len() <= s.len() && #[trigger] s.subrange(i, i + r.len()) == r;
        if found {
            let i = choose|i: int| 0 <= i && i + r.len() <= s.len() && #[trigger] s.subrange(i, i + r.len()) == r;
            assert(crate::text::occurs_at(r, s, i));
        }
        if crate::text::is_infix(r, s) {
            let i = choose|i: int| crate::text::occurs_at(r, s, i);
            assert(s.subrange(i, i + r.len()) == r);
        }
    }
}

/// The value of ASCII decimal digits read the usual way, the most
/// significant digit first.
pub open spec fn decimal_value(digits: Seq<u8>) -> nat
    decreases digits.len(),
{
    if digits.len() == 0 {
        0
    } else {
        decimal_value(digits.drop_last()) * 10 + (digits.last() - 48) as nat
    }
}

/// `decimal_ascii(n)` is the usual decimal spelling of `n`: ASCII digits,
/// the most significant first, without leading zeros, whose value is `n`.
/// So the blob header of `git_blob_sha` carries the length as git writes it.
pub proof fn law_decimal_ascii_spells_the_number(n: nat)
    ensures
        decimal_ascii(n).len() > 0,
        forall|k: int| 0 <= k < decimal_ascii(n).len() ==> 48 <= #[trigger] decimal_ascii(n)[k] <= 57,
        decimal_ascii(n).len() > 1 ==> decimal_ascii(n)[0] != 48,
        decimal_value(decimal_ascii(n)) == n,
    decreases n,
{
    let d = decimal_ascii(n);
    if n < 10 {
        assert(d.drop_last() =~= Seq::<u8>::empty());
        assert(((48 + n) as u8) == 48 + n);
        assert(d.last() == 48 + n);
        assert(decimal_value(d) == decimal_value(d.drop_last()) * 10 + (d.last() - 48) as nat);
    } else {
        let q = n / 10;
        law_decimal_ascii_spells_the_number(q);
        let head = decimal_ascii(q);
        assert(d == head + seq![(48 + n % 10) as u8]);
        assert(d.drop_last() =~= head);
        assert(d[0] == head[0]);
        assert forall|k: int| 0 <= k < d.len() implies 48 <= #[trigger] d[k] <= 57 by {
            if k < head.len() {
                assert(d[k] == head[k]);
            }
        }
        if head.len() == 1 {
            assert(q < 10) by {
                if q >= 10 {
                    let hh = decimal_ascii(q / 10);
                    assert(head.len() == hh.len() + 1);
                    law_decimal_ascii_spells_the_number(q / 10);
                }
            }
        }
        assert(((48 + n % 10) as u8) == 48 + n % 10);
        assert(d.last() == 48 + n % 10);
        assert(decimal_value(d) == decimal_value(head) * 10 + (d.last() - 48) as nat);
        assert(n == q * 10 + n % 10);
    }
}

/// A non-empty feature filter lists only features of that name, and every
/// feature of that name in the store (under the namespace filter, where
/// there is one), whatever the namespace filter is.
pub proof fn law_feature_filter_selects_by_feature_name(
    cache: Map<(Seq<char>, Seq<char>), FeatureInfoView>,
    namespace: Seq<char>,
    feature: Seq<char>,
    res: Seq<Namespace>,
)
    requires
        feature.len() > 0,
        is_filtered_contents(cache, namespace, feature, res),
    ensures
        forall|i: int, j: int|
            0 <= i < res.len() && 0 <= j < res[i].features@.len() ==> #[trigger] res[i].features@[j].name@
                == feature,
        forall|k: (Seq<char>, Seq<char>)|
            #[trigger] cache.contains_key(k) && k.1 == feature && (namespace.len() == 0 || k.0 == namespace)
                ==> lists_key(res, k),
{
    assert forall|i: int, j: int| 0 <= i < res.len() && 0 <= j < res[i].features@.len() implies #[trigger] res[i].features@[j].name@
        == feature by {
        assert(crate::store::is_filtered_group(cache, namespace, feature, res[i]));
        assert(passes_filter((res[i].name@, res[i].features@[j].name@), namespace, feature));
    }
    assert forall|k: (Seq<char>, Seq<char>)|
        #[trigger] cache.contains_key(k) && k.1 == feature && (namespace.len() == 0 || k.0 == namespace)
            implies lists_key(res, k) by {
        assert(passes_filter(k, namespace, feature));
    }
}

/// A non-empty namespace filter lists only that namespace, and every
/// feature of it in the store (under the feature filter, where there is
/// one), whatever the feature filter is.
pub proof fn law_namespace_filter_selects_by_namespace_name(
    cache: Map<(Seq<char>, Seq<char>), FeatureInfoView>,
    namespace: Seq<char>,
    feature: Seq<char>,
    res: Seq<Namespace>,
)
    requires
        namespace.len() > 0,
        is_filtered_contents(cache, namespace, feature, res),
    ensures
        forall|i: int| 0 <= i < res.len() ==> #[trigger] res[i].name@ == namespace,
        forall|k: (Seq<char>, Seq<char>)|
            #[trigger] cache.contains_key(k) && k.0 == namespace && (feature.len() == 0 || k.1 == feature)
                ==> lists_key(res, k),
{
    assert forall|i: int| 0 <= i < res.len() implies #[trigger] res[i].name@ == namespace by {
        assert(crate::store::is_filtered_group(cache, namespace, feature, res[i]));
        let f = res[i].features@[0];
        assert(passes_filter((res[i].name@, f.name@), namespace, feature));
    }
    assert forall|k: (Seq<char>, Seq<char>)|
        #[trigger] cache.contains_key(k) && k.0 == namespace && (feature.len() == 0 || k.1 == feature)
            implies lists_key(res, k) by {
        assert(passes_filter(k, namespace, feature));
    }
}

} // verus!
