//! The store of features that the sidecar evaluates locally: the features of a
//! config repository at one commit, found by namespace and feature name.
use vstd::prelude::*;

use crate::backend::{
    Feature as BackendFeature, GetRepositoryContentsRequest, GetRepositoryContentsResponse,
    GetRepositoryVersionRequest, Namespace,
};
use crate::evaluator::{Feature, FeatureView};
use crate::types::{add_api_key, ConnectionCredentials, FeatureRequestParams, KeyedRequest, Mode};
use vstd::string::StringExecFns;

verus! {

/// The key of a feature in the store.
#[derive(Debug)]
pub struct FeatureKey {
    pub namespace: String,
    pub feature: String,
}

/// A feature in the store, and the git blob sha of its serialized form.
#[derive(Debug)]
pub struct FeatureInfo {
    pub feature: Feature,
    pub version: String,
}

pub struct FeatureInfoView {
    pub feature: FeatureView,
    pub version: Seq<char>,
}

impl View for FeatureKey {
    type V = (Seq<char>, Seq<char>);

    open spec fn view(&self) -> (Seq<char>, Seq<char>) {
        (self.namespace@, self.feature@)
    }
}

impl View for FeatureInfo {
    type V = FeatureInfoView;

    open spec fn view(&self) -> FeatureInfoView {
        FeatureInfoView { feature: self.feature@, version: self.version@ }
    }
}

/// The map that a list of entries describes, later entries taking precedence.
pub open spec fn entries_map(s: Seq<(FeatureKey, FeatureInfo)>) -> Map<
    (Seq<char>, Seq<char>),
    FeatureInfoView,
>
    decreases s.len(),
{
    if s.len() == 0 {
        Map::empty()
    } else {
        entries_map(s.drop_last()).insert(s.last().0@, s.last().1@)
    }
}

/// No two entries have the same key.
pub open spec fn distinct_keys(s: Seq<(FeatureKey, FeatureInfo)>) -> bool {
    forall|i: int, j: int| 0 <= i < j < s.len() ==> s[i].0@ != s[j].0@
}

proof fn lemma_entries_map_dom(s: Seq<(FeatureKey, FeatureInfo)>, k: (Seq<char>, Seq<char>))
    ensures
        entries_map(s).contains_key(k) <==> exists|i: int| 0 <= i < s.len() && s[i].0@ == k,
    decreases s.len(),
{
    if s.len() > 0 {
        lemma_entries_map_dom(s.drop_last(), k);
        if entries_map(s.drop_last()).contains_key(k) {
            let i = choose|i: int| 0 <= i < s.drop_last().len() && s.drop_last()[i].0@ == k;
            assert(s[i].0@ == k);
        }
        if exists|i: int| 0 <= i < s.len() && s[i].0@ == k {
            let i = choose|i: int| 0 <= i < s.len() && s[i].0@ == k;
            if i < s.len() - 1 {
                assert(s.drop_last()[i].0@ == k);
            }
        }
    }
}

proof fn lemma_entries_map_value(s: Seq<(FeatureKey, FeatureInfo)>, i: int)
    requires
        distinct_keys(s),
        0 <= i < s.len(),
    ensures
        entries_map(s).contains_key(s[i].0@),
        entries_map(s)[s[i].0@] == s[i].1@,
    decreases s.len(),
{
    if i < s.len() - 1 {
        lemma_entries_map_value(s.drop_last(), i);
        assert(s.drop_last()[i] == s[i]);
    }
}

proof fn lemma_entries_map_update(s: Seq<(FeatureKey, FeatureInfo)>, j: int, e: (FeatureKey, FeatureInfo))
    requires
        distinct_keys(s),
        0 <= j < s.len(),
        e.0@ == s[j].0@,
    ensures
        distinct_keys(s.update(j, e)),
        entries_map(s.update(j, e)) == entries_map(s).insert(e.0@, e.1@),
    decreases s.len(),
{
    let t = s.update(j, e);
    assert forall|k: (Seq<char>, Seq<char>)| #![auto] entries_map(t).contains_key(k) <==> entries_map(s).insert(e.0@, e.1@).contains_key(k) by {
        lemma_entries_map_dom(t, k);
        lemma_entries_map_dom(s, k);
        if exists|i: int| 0 <= i < t.len() && t[i].0@ == k {
            let i = choose|i: int| 0 <= i < t.len() && t[i].0@ == k;
            if i != j {
                assert(s[i].0@ == k);
            }
        }
        if exists|i: int| 0 <= i < s.len() && s[i].0@ == k {
            let i = choose|i: int| 0 <= i < s.len() && s[i].0@ == k;
            assert(t[i].0@ == k);
        }
    }
    assert forall|k: (Seq<char>, Seq<char>)| #[trigger] entries_map(t).contains_key(k) implies entries_map(t)[k] == entries_map(s).insert(e.0@, e.1@)[k] by {
        lemma_entries_map_dom(t, k);
        let i = choose|i: int| 0 <= i < t.len() && t[i].0@ == k;
        lemma_entries_map_value(t, i);
        if i != j {
            lemma_entries_map_value(s, i);
        }
    }
    assert(entries_map(t) =~= entries_map(s).insert(e.0@, e.1@));
}

/// A map from feature keys to features, held as a list of entries with
/// distinct keys.
pub struct FeatureStore {
    entries: Vec<(FeatureKey, FeatureInfo)>,
}

impl View for FeatureStore {
    type V = Map<(Seq<char>, Seq<char>), FeatureInfoView>;

    closed spec fn view(&self) -> Map<(Seq<char>, Seq<char>), FeatureInfoView> {
        entries_map(self.entries@)
    }
}

impl FeatureStore {
    /// The store is well formed: no key occurs twice.
    pub closed spec fn wf(&self) -> bool {
        distinct_keys(self.entries@)
    }

    /// No key occurs twice in a store.
    #[verifier::type_invariant]
    spec fn keys_distinct(self) -> bool {
        self.wf()
    }

    /// An empty store.
    pub fn new() -> (s: FeatureStore)
        ensures
            s.wf(),
            s@ == Map::<(Seq<char>, Seq<char>), FeatureInfoView>::empty(),
    {
        FeatureStore { entries: Vec::new() }
    }

    /// The number of features in the store.
    pub fn len(&self) -> (n: usize)
        ensures
            n == self@.len(),
    {
        proof {
            use_type_invariant(self);
            self.lemma_dom_finite_len();
        }
        self.entries.len()
    }

    proof fn lemma_dom_finite_len(&self)
        requires
            self.wf(),
        ensures
            self@.dom().finite(),
            self@.len() == self.entries@.len(),
        decreases self.entries@.len(),
    {
        lemma_entries_map_len(self.entries@);
    }

    /// The position of the entry with the key (`namespace`, `feature`), if any.
    fn find(&self, namespace: &String, feature: &String) -> (r: Option<usize>)
        requires
            self.wf(),
        ensures
            match r {
                Some(i) => i < self.entries@.len() && self.entries@[i as int].0@ == (
                    namespace@,
                    feature@,
                ),
                None => !self@.contains_key((namespace@, feature@)),
            },
    {
        let mut i: usize = 0;
        while i < self.entries.len()
            invariant
                i <= self.entries@.len(),
                forall|j: int|
                    0 <= j < i ==> #[trigger] self.entries@[j].0@ != (namespace@, feature@),
            decreases self.entries@.len() - i,
        {
            let entry = &self.entries[i];
            if entry.0.namespace == *namespace && entry.0.feature == *feature {
                return Some(i);
            }
            i = i + 1;
        }
        proof {
            lemma_entries_map_dom(self.entries@, (namespace@, feature@));
        }
        None
    }

    /// Sets the feature at `key`, replacing the one it had.
    pub fn insert(&mut self, key: FeatureKey, info: FeatureInfo)
        ensures
            final(self).wf(),
            final(self)@ == old(self)@.insert(key@, info@),
    {
        let mut taken = FeatureStore::new();
        std::mem::swap(&mut taken, self);
        proof {
            use_type_invariant(&taken);
        }
        let found = taken.find(&key.namespace, &key.feature);
        let FeatureStore { mut entries } = taken;
        let ghost before = entries@;
        match found {
            Some(i) => {
                proof {
                    lemma_entries_map_update(entries@, i as int, (key, info));
                }
                entries.set(i, (key, info));
            },
            None => {
                proof {
                    lemma_entries_map_dom(entries@, key@);
                }
                entries.push((key, info));
                assert(entries@.drop_last() =~= before);
            },
        }
        *self = FeatureStore { entries };
    }

    /// The feature at (`namespace`, `feature`), if the store has one.
    pub fn get(&self, namespace: &String, feature: &String) -> (r: Option<&FeatureInfo>)
        ensures
            match r {
                Some(info) => self@.contains_key((namespace@, feature@)) && info@ == self@[(
                    namespace@,
                    feature@,
                )],
                None => !self@.contains_key((namespace@, feature@)),
            },
    {
        proof {
            use_type_invariant(self);
        }
        match self.find(namespace, feature) {
            Some(i) => {
                proof {
                    lemma_entries_map_value(self.entries@, i as int);
                }
                Some(&self.entries[i].1)
            },
            None => None,
        }
    }
}

proof fn lemma_entries_map_len(s: Seq<(FeatureKey, FeatureInfo)>)
    requires
        distinct_keys(s),
    ensures
        entries_map(s).dom().finite(),
        entries_map(s).len() == s.len(),
    decreases s.len(),
{
    if s.len() > 0 {
        lemma_entries_map_len(s.drop_last());
        lemma_entries_map_dom(s.drop_last(), s.last().0@);
        if entries_map(s.drop_last()).contains_key(s.last().0@) {
            let i = choose|i: int| 0 <= i < s.drop_last().len() && s.drop_last()[i].0@ == s.last().0@;
            assert(s[i].0@ == s[s.len() - 1].0@);
        }
    }
}


/// The store entry for each feature of a namespace, inserted into `m` in order.
pub open spec fn insert_features(
    m: Map<(Seq<char>, Seq<char>), FeatureInfoView>,
    namespace: Seq<char>,
    features: Seq<BackendFeature>,
) -> Map<(Seq<char>, Seq<char>), FeatureInfoView>
    decreases features.len(),
{
    if features.len() == 0 {
        m
    } else {
        insert_features(m, namespace, features.drop_last()).insert(
            (namespace, features.last().name@),
            FeatureInfoView { feature: features.last().feature->0@, version: features.last().sha@ },
        )
    }
}

/// The store that the contents of a repository describe: every feature of every
/// namespace, by (namespace name, feature name); a later duplicate replaces an
/// earlier one.
pub open spec fn contents_map(namespaces: Seq<Namespace>) -> Map<
    (Seq<char>, Seq<char>),
    FeatureInfoView,
>
    decreases namespaces.len(),
{
    if namespaces.len() == 0 {
        Map::empty()
    } else {
        insert_features(
            contents_map(namespaces.drop_last()),
            namespaces.last().name@,
            namespaces.last().features@,
        )
    }
}

/// Every feature of every namespace has contents.
pub open spec fn all_features_present(namespaces: Seq<Namespace>) -> bool {
    forall|i: int, j: int|
        0 <= i < namespaces.len() && 0 <= j < namespaces[i].features@.len()
            ==> #[trigger] namespaces[i].features@[j].feature is Some
}

/// Whether every feature of every namespace has contents; a store can only
/// be built from namespaces of which this holds.
pub fn features_present(namespaces: &Vec<Namespace>) -> (b: bool)
    ensures
        b == all_features_present(namespaces@),
{
    let mut i: usize = 0;
    while i < namespaces.len()
        invariant
            i <= namespaces@.len(),
            forall|a: int, c: int|
                0 <= a < i && 0 <= c < namespaces@[a].features@.len()
                    ==> #[trigger] namespaces@[a].features@[c].feature is Some,
        decreases namespaces@.len() - i,
    {
        let features = &namespaces[i].features;
        let mut j: usize = 0;
        while j < features.len()
            invariant
                i < namespaces@.len(),
                features == namespaces@[i as int].features,
                j <= features@.len(),
                forall|a: int, c: int|
                    0 <= a < i && 0 <= c < namespaces@[a].features@.len()
                        ==> #[trigger] namespaces@[a].features@[c].feature is Some,
                forall|c: int| 0 <= c < j ==> #[trigger] features@[c].feature is Some,
            decreases features@.len() - j,
        {
            if features[j].feature.is_none() {
                return false;
            }
            j = j + 1;
        }
        i = i + 1;
    }
    true
}

/// Builds the store of the features that the namespaces hold.
pub fn create_feature_store(namespaces: Vec<Namespace>) -> (s: FeatureStore)
    requires
        all_features_present(namespaces@),
    ensures
        s.wf(),
        s@ == contents_map(namespaces@),
{
    let mut feature_store = FeatureStore::new();
    let mut i: usize = 0;
    while i < namespaces.len()
        invariant
            i <= namespaces@.len(),
            all_features_present(namespaces@),
            feature_store.wf(),
            feature_store@ == contents_map(namespaces@.subrange(0, i as int)),
        decreases namespaces@.len() - i,
    {
        let namespace = &namespaces[i];
        let ghost before = feature_store@;
        assert(namespaces@.subrange(0, i + 1).drop_last() =~= namespaces@.subrange(0, i as int));
        let mut j: usize = 0;
        while j < namespace.features.len()
            invariant
                i < namespaces@.len(),
                *namespace == namespaces@[i as int],
                j <= namespace.features@.len(),
                all_features_present(namespaces@),
                feature_store.wf(),
                feature_store@ == insert_features(
                    before,
                    namespace.name@,
                    namespace.features@.subrange(0, j as int),
                ),
            decreases namespace.features@.len() - j,
        {
            let feature = &namespace.features[j];
            assert(namespace.features@.subrange(0, j + 1).drop_last() =~= namespace.features@.subrange(
                0,
                j as int,
            ));
            assert(namespaces@[i as int].features@[j as int].feature is Some);
            let contents = match &feature.feature {
                Some(f) => f.clone(),
                None => {
                    assert(false);
                    Feature {
                        key: String::new(),
                        description: String::new(),
                        tree: None,
                        feature_type: crate::evaluator::FeatureType::Unspecified,
                    }
                },
            };
            feature_store.insert(
                FeatureKey { namespace: namespace.name.clone(), feature: feature.name.clone() },
                FeatureInfo { feature: contents, version: feature.sha.clone() },
            );
            j = j + 1;
        }
        assert(namespace.features@.subrange(0, j as int) =~= namespace.features@);
        i = i + 1;
    }
    assert(namespaces@.subrange(0, i as int) =~= namespaces@);
    feature_store
}


/// Whether a key passes the filters: an empty filter passes every name.
pub open spec fn passes_filter(
    key: (Seq<char>, Seq<char>),
    namespace_filter: Seq<char>,
    feature_filter: Seq<char>,
) -> bool {
    (namespace_filter.len() == 0 || namespace_filter == key.0) && (feature_filter.len() == 0
        || feature_filter == key.1)
}

/// A group of features of `cache` under one namespace name: not empty, each
/// feature once, each as the store holds it and passing the filters.
pub open spec fn is_filtered_group(
    cache: Map<(Seq<char>, Seq<char>), FeatureInfoView>,
    namespace_filter: Seq<char>,
    feature_filter: Seq<char>,
    ns: Namespace,
) -> bool {
    &&& ns.features@.len() > 0
    &&& forall|j: int|
        0 <= j < ns.features@.len() ==> {
            let f = #[trigger] ns.features@[j];
            let k = (ns.name@, f.name@);
            &&& cache.contains_key(k)
            &&& passes_filter(k, namespace_filter, feature_filter)
            &&& f.sha@ == cache[k].version
            &&& f.feature is Some
            &&& f.feature->0@ == cache[k].feature
        }
    &&& forall|j1: int, j2: int|
        0 <= j1 < j2 < ns.features@.len() ==> #[trigger] ns.features@[j1].name@
            != #[trigger] ns.features@[j2].name@
}

/// Some group of `res` is named `k.0` and holds a feature named `k.1`.
pub open spec fn lists_key(res: Seq<Namespace>, k: (Seq<char>, Seq<char>)) -> bool {
    exists|a: int, j: int|
        0 <= a < res.len() && 0 <= j < res[a].features@.len() && res[a].name@ == k.0
            && #[trigger] res[a].features@[j].name@ == k.1
}

/// `res` lists exactly the features of `cache` that pass the filters, grouped
/// by namespace: each namespace once, with at least one feature, each feature
/// once and as the store holds it.
pub open spec fn is_filtered_contents(
    cache: Map<(Seq<char>, Seq<char>), FeatureInfoView>,
    namespace_filter: Seq<char>,
    feature_filter: Seq<char>,
    res: Seq<Namespace>,
) -> bool {
    &&& forall|i: int, j: int| 0 <= i < j < res.len() ==> res[i].name@ != res[j].name@
    &&& forall|i: int|
        0 <= i < res.len() ==> is_filtered_group(
            cache,
            namespace_filter,
            feature_filter,
            #[trigger] res[i],
        )
    &&& forall|k: (Seq<char>, Seq<char>)|
        #[trigger] cache.contains_key(k) && passes_filter(k, namespace_filter, feature_filter)
            ==> lists_key(res, k)
}

/// Some entry below `bound` passes the filters and has namespace `name`.
pub open spec fn name_of_passing_entry(
    entries: Seq<(FeatureKey, FeatureInfo)>,
    namespace_filter: Seq<char>,
    feature_filter: Seq<char>,
    name: Seq<char>,
    bound: int,
) -> bool {
    exists|x: int|
        0 <= x < bound && passes_filter(#[trigger] entries[x].0@, namespace_filter, feature_filter)
            && entries[x].0@.0 == name
}

/// `names` holds `name`.
pub open spec fn has_name_spec(names: Seq<String>, name: Seq<char>) -> bool {
    exists|i: int| 0 <= i < names.len() && #[trigger] names[i]@ == name
}

/// Whether `names` holds `name`.
fn has_name(names: &Vec<String>, name: &String) -> (b: bool)
    ensures
        b == has_name_spec(names@, name@),
{
    let mut i: usize = 0;
    while i < names.len()
        invariant
            i <= names@.len(),
            forall|j: int| 0 <= j < i ==> names@[j]@ != name@,
        decreases names@.len() - i,
    {
        if names[i] == *name {
            return true;
        }
        i = i + 1;
    }
    false
}

impl FeatureStore {
    /// Whether the key of entry `i` passes the filters.
    fn entry_passes(&self, i: usize, namespace_filter: &String, feature_filter: &String) -> (b: bool)
        requires
            i < self.entries@.len(),
        ensures
            b == passes_filter(self.entries@[i as int].0@, namespace_filter@, feature_filter@),
    {
        let key = &self.entries[i].0;
        (namespace_filter.as_str().is_empty() || *namespace_filter == key.namespace) && (
        feature_filter.as_str().is_empty() || *feature_filter == key.feature)
    }

    /// The names of the namespaces of the entries that pass the filters, each once.
    fn filtered_namespace_names(&self, namespace_filter: &String, feature_filter: &String) -> (names:
        Vec<String>)
        requires
            self.wf(),
        ensures
            forall|i: int, j: int| 0 <= i < j < names@.len() ==> names@[i]@ != names@[j]@,
            forall|i: int|
                0 <= i < names@.len() ==> name_of_passing_entry(
                    self.entries@,
                    namespace_filter@,
                    feature_filter@,
                    #[trigger] names@[i]@,
                    self.entries@.len() as int,
                ),
            forall|e: int|
                0 <= e < self.entries@.len() && passes_filter(
                    #[trigger] self.entries@[e].0@,
                    namespace_filter@,
                    feature_filter@,
                ) ==> has_name_spec(names@, self.entries@[e].0@.0),
    {
        let mut names: Vec<String> = Vec::new();
        let mut e: usize = 0;
        while e < self.entries.len()
            invariant
                e <= self.entries@.len(),
                forall|i: int, j: int| 0 <= i < j < names@.len() ==> names@[i]@ != names@[j]@,
                forall|i: int|
                    0 <= i < names@.len() ==> name_of_passing_entry(
                        self.entries@,
                        namespace_filter@,
                        feature_filter@,
                        #[trigger] names@[i]@,
                        e as int,
                    ),
                forall|x: int|
                    0 <= x < e && passes_filter(
                        #[trigger] self.entries@[x].0@,
                        namespace_filter@,
                        feature_filter@,
                    ) ==> has_name_spec(names@, self.entries@[x].0@.0),
            decreases self.entries@.len() - e,
        {
            let ghost old_names = names@;
            if self.entry_passes(e, namespace_filter, feature_filter) {
                let ns = &self.entries[e].0.namespace;
                if !has_name(&names, ns) {
                    names.push(ns.clone());
                }
            }
            proof {
                assert forall|i: int| 0 <= i < names@.len() implies name_of_passing_entry(
                    self.entries@,
                    namespace_filter@,
                    feature_filter@,
                    #[trigger] names@[i]@,
                    e + 1,
                ) by {
                    if i < old_names.len() {
                        assert(names@[i] == old_names[i]);
                        assert(name_of_passing_entry(
                            self.entries@,
                            namespace_filter@,
                            feature_filter@,
                            old_names[i]@,
                            e as int,
                        ));
                    } else {
                        assert(names@[i]@ == self.entries@[e as int].0@.0);
                    }
                }
                assert forall|x: int|
                    0 <= x < e + 1 && passes_filter(
                        #[trigger] self.entries@[x].0@,
                        namespace_filter@,
                        feature_filter@,
                    ) implies has_name_spec(names@, self.entries@[x].0@.0) by {
                    if x < e {
                        assert(has_name_spec(old_names, self.entries@[x].0@.0));
                        let i = choose|i: int|
                            0 <= i < old_names.len() && #[trigger] old_names[i]@
                                == self.entries@[x].0@.0;
                        assert(names@[i] == old_names[i]);
                    } else if names@.len() > old_names.len() {
                        assert(names@[names@.len() - 1]@ == self.entries@[x].0@.0);
                    }
                }
            }
            e = e + 1;
        }
        names
    }

    /// The features of the entries that pass the filters and belong to `name`,
    /// in the order of the entries, as a group.
    fn filtered_group(&self, name: &String, namespace_filter: &String, feature_filter: &String) -> (ns:
        Namespace)
        requires
            self.wf(),
            name_of_passing_entry(
                self.entries@,
                namespace_filter@,
                feature_filter@,
                name@,
                self.entries@.len() as int,
            ),
        ensures
            ns.name@ == name@,
            is_filtered_group(self@, namespace_filter@, feature_filter@, ns),
            forall|e: int|
                0 <= e < self.entries@.len() && passes_filter(
                    #[trigger] self.entries@[e].0@,
                    namespace_filter@,
                    feature_filter@,
                ) && self.entries@[e].0@.0 == name@ ==> exists|j: int|
                    0 <= j < ns.features@.len() && #[trigger] ns.features@[j].name@
                        == self.entries@[e].0@.1,
    {
        let mut features: Vec<BackendFeature> = Vec::new();
        let ghost mut idxs: Seq<int> = Seq::empty();
        let mut e: usize = 0;
        while e < self.entries.len()
            invariant
                self.wf(),
                e <= self.entries@.len(),
                features@.len() == idxs.len(),
                forall|j: int|
                    0 <= j < features@.len() ==> {
                        let x = #[trigger] idxs[j];
                        &&& 0 <= x < e
                        &&& passes_filter(self.entries@[x].0@, namespace_filter@, feature_filter@)
                        &&& self.entries@[x].0@ == (name@, features@[j].name@)
                        &&& features@[j].sha@ == self.entries@[x].1.version@
                        &&& features@[j].feature is Some
                        &&& features@[j].feature->0@ == self.entries@[x].1.feature@
                    },
                forall|j1: int, j2: int| 0 <= j1 < j2 < idxs.len() ==> idxs[j1] < idxs[j2],
                forall|x: int|
                    0 <= x < e && passes_filter(
                        #[trigger] self.entries@[x].0@,
                        namespace_filter@,
                        feature_filter@,
                    ) && self.entries@[x].0@.0 == name@ ==> exists|j: int|
                        0 <= j < idxs.len() && idxs[j] == x,
            decreases self.entries@.len() - e,
        {
            let entry = &self.entries[e];
            if self.entry_passes(e, namespace_filter, feature_filter) && entry.0.namespace == *name {
                let ghost old_idxs = idxs;
                features.push(
                    BackendFeature {
                        name: entry.0.feature.clone(),
                        sha: entry.1.version.clone(),
                        feature: Some(entry.1.feature.clone()),
                    },
                );
                proof {
                    idxs = idxs.push(e as int);
                    assert forall|x: int|
                        0 <= x < e + 1 && passes_filter(
                            #[trigger] self.entries@[x].0@,
                            namespace_filter@,
                            feature_filter@,
                        ) && self.entries@[x].0@.0 == name@ implies exists|j: int|
                        0 <= j < idxs.len() && idxs[j] == x by {
                        if x < e {
                            let j = choose|j: int| 0 <= j < old_idxs.len() && old_idxs[j] == x;
                            assert(idxs[j] == x);
                        } else {
                            assert(idxs[idxs.len() - 1] == x);
                        }
                    }
                }
            }
            e = e + 1;
        }
        let ns = Namespace { name: name.clone(), features };
        proof {
            let x = choose|x: int|
                0 <= x < self.entries@.len() && passes_filter(
                    #[trigger] self.entries@[x].0@,
                    namespace_filter@,
                    feature_filter@,
                ) && self.entries@[x].0@.0 == name@;
            let j = choose|j: int| 0 <= j < idxs.len() && idxs[j] == x;
            assert(ns.features@.len() > 0);
            assert forall|j: int| 0 <= j < ns.features@.len() implies {
                let f = #[trigger] ns.features@[j];
                let k = (ns.name@, f.name@);
                &&& self@.contains_key(k)
                &&& passes_filter(k, namespace_filter@, feature_filter@)
                &&& f.sha@ == self@[k].version
                &&& f.feature is Some
                &&& f.feature->0@ == self@[k].feature
            } by {
                lemma_entries_map_value(self.entries@, idxs[j]);
            }
            assert forall|j1: int, j2: int| 0 <= j1 < j2 < ns.features@.len() implies #[trigger] ns.features@[j1].name@
                != #[trigger] ns.features@[j2].name@ by {
                assert(idxs[j1] < idxs[j2]);
                assert(self.entries@[idxs[j1]].0@ != self.entries@[idxs[j2]].0@);
            }
            assert forall|x: int|
                0 <= x < self.entries@.len() && passes_filter(
                    #[trigger] self.entries@[x].0@,
                    namespace_filter@,
                    feature_filter@,
                ) && self.entries@[x].0@.0 == name@ implies exists|j: int|
                0 <= j < ns.features@.len() && #[trigger] ns.features@[j].name@
                    == self.entries@[x].0@.1 by {
                let j = choose|j: int| 0 <= j < idxs.len() && idxs[j] == x;
                assert(ns.features@[j].name@ == self.entries@[x].0@.1);
            }
        }
        ns
    }
}

/// The features of the store that pass the filters, grouped by namespace. An
/// empty filter passes every name.
pub fn filter_cache(cache: &FeatureStore, namespace_filter: &str, feature_filter: &str) -> (r: Vec<
    Namespace,
>)
    ensures
        is_filtered_contents(cache@, namespace_filter@, feature_filter@, r@),
{
    proof {
        use_type_invariant(cache);
    }
    let nf = String::from_str(namespace_filter);
    let ff = String::from_str(feature_filter);
    let names = cache.filtered_namespace_names(&nf, &ff);
    let mut res: Vec<Namespace> = Vec::new();
    let mut i: usize = 0;
    while i < names.len()
        invariant
            cache.wf(),
            i <= names@.len(),
            res@.len() == i,
            nf@ == namespace_filter@,
            ff@ == feature_filter@,
            forall|a: int|
                0 <= a < names@.len() ==> name_of_passing_entry(
                    cache.entries@,
                    nf@,
                    ff@,
                    #[trigger] names@[a]@,
                    cache.entries@.len() as int,
                ),
            forall|a: int| 0 <= a < i ==> #[trigger] res@[a].name@ == names@[a]@,
            forall|a: int| 0 <= a < i ==> is_filtered_group(cache@, nf@, ff@, #[trigger] res@[a]),
            forall|e: int|
                0 <= e < cache.entries@.len() && passes_filter(
                    #[trigger] cache.entries@[e].0@,
                    nf@,
                    ff@,
                ) && has_name_spec(names@.subrange(0, i as int), cache.entries@[e].0@.0)
                    ==> lists_key(res@, cache.entries@[e].0@),
        decreases names@.len() - i,
    {
        let ns = cache.filtered_group(&names[i], &nf, &ff);
        let ghost old_res = res@;
        res.push(ns);
        proof {
            assert forall|a: int| 0 <= a < i + 1 implies #[trigger] res@[a].name@ == names@[a]@ by {
                if a < i {
                    assert(res@[a] == old_res[a]);
                }
            }
            assert forall|a: int| 0 <= a < i + 1 implies is_filtered_group(
                cache@,
                nf@,
                ff@,
                #[trigger] res@[a],
            ) by {
                if a < i {
                    assert(res@[a] == old_res[a]);
                }
            }
            assert forall|e: int|
                0 <= e < cache.entries@.len() && passes_filter(
                    #[trigger] cache.entries@[e].0@,
                    nf@,
                    ff@,
                ) && has_name_spec(names@.subrange(0, i + 1), cache.entries@[e].0@.0) implies lists_key(
                res@,
                cache.entries@[e].0@,
            ) by {
                let k = cache.entries@[e].0@;
                if names@[i as int]@ == k.0 {
                    let j = choose|j: int|
                        0 <= j < ns.features@.len() && #[trigger] ns.features@[j].name@ == k.1;
                    assert(res@[i as int].features@[j].name@ == k.1);
                } else {
                    let a0 = choose|a: int|
                        0 <= a < i + 1 && #[trigger] names@.subrange(0, i + 1)[a]@ == k.0;
                    assert(names@.subrange(0, i as int)[a0]@ == k.0);
                    assert(lists_key(old_res, k));
                    let (a, j) = choose|a: int, j: int|
                        0 <= a < old_res.len() && 0 <= j < old_res[a].features@.len()
                            && old_res[a].name@ == k.0 && #[trigger] old_res[a].features@[j].name@
                            == k.1;
                    assert(res@[a] == old_res[a]);
                }
            }
        }
        i = i + 1;
    }
    proof {
        assert forall|a: int, b: int| 0 <= a < b < res@.len() implies res@[a].name@ != res@[b].name@ by {
            assert(res@[a].name@ == names@[a]@);
            assert(res@[b].name@ == names@[b]@);
        }
        assert forall|k: (Seq<char>, Seq<char>)|
            #[trigger] cache@.contains_key(k) && passes_filter(k, namespace_filter@, feature_filter@)
                implies lists_key(res@, k) by {
            lemma_entries_map_dom(cache.entries@, k);
            let e = choose|e: int| 0 <= e < cache.entries@.len() && cache.entries@[e].0@ == k;
            assert(names@.subrange(0, i as int) =~= names@);
            assert(passes_filter(cache.entries@[e].0@, nf@, ff@));
        }
    }
    res
}


/// What the store answers for a feature: the feature, the commit of the
/// repository it was read from, and the git blob sha of the feature.
#[derive(Debug)]
pub struct FeatureData {
    pub commit_sha: String,
    pub feature_sha: String,
    pub feature: Feature,
}

/// The features of a config repository at one commit. The sidecar starts it
/// from a bootstrap or a first fetch, and replaces its contents whenever a poll
/// or a change on disk brings a new version.
pub struct Store {
    cache: FeatureStore,
    repo_version: String,
}

impl Store {
    /// The features of the store, by (namespace, feature name).
    pub closed spec fn features(&self) -> Map<(Seq<char>, Seq<char>), FeatureInfoView> {
        self.cache@
    }

    /// The commit sha of the repository contents that the store holds.
    pub closed spec fn version(&self) -> Seq<char> {
        self.repo_version@
    }

    /// A store that holds the given contents of a repository.
    pub fn new(contents: GetRepositoryContentsResponse) -> (s: Store)
        requires
            all_features_present(contents.namespaces@),
        ensures
            s.features() == contents_map(contents.namespaces@),
            s.version() == contents.commit_sha@,
    {
        Store { cache: create_feature_store(contents.namespaces), repo_version: contents.commit_sha }
    }

    /// Replaces the contents of the store with those of a newer version.
    pub fn replace_contents(&mut self, contents: GetRepositoryContentsResponse)
        requires
            all_features_present(contents.namespaces@),
        ensures
            final(self).features() == contents_map(contents.namespaces@),
            final(self).version() == contents.commit_sha@,
    {
        self.cache = create_feature_store(contents.namespaces);
        self.repo_version = contents.commit_sha;
    }

    /// Whether a poll that found `new_version` has to fetch the contents: only
    /// when that version is not the one the store holds.
    pub fn needs_update(&self, new_version: &String) -> (b: bool)
        ensures
            b == (self.version() != new_version@),
    {
        !(self.repo_version == *new_version)
    }

    /// The feature that the request names, with the version of the store and
    /// of the feature; `None` when the store does not hold it.
    pub fn get_feature_local(&self, request: FeatureRequestParams) -> (r: Option<FeatureData>)
        ensures
            match r {
                Some(data) => {
                    let k = (request.namespace@, request.feature@);
                    &&& self.features().contains_key(k)
                    &&& data.feature@ == self.features()[k].feature
                    &&& data.feature_sha@ == self.features()[k].version
                    &&& data.commit_sha@ == self.version()
                },
                None => !self.features().contains_key((request.namespace@, request.feature@)),
            },
    {
        match self.cache.get(&request.namespace, &request.feature) {
            Some(info) => Some(
                FeatureData {
                    feature: info.feature.clone(),
                    commit_sha: self.repo_version.clone(),
                    feature_sha: info.version.clone(),
                },
            ),
            None => None,
        }
    }

    /// The commit sha of the contents that the store holds.
    pub fn get_version_local(&self) -> (v: String)
        ensures
            v@ == self.version(),
    {
        self.repo_version.clone()
    }

    /// The version of the store and its features that pass the filters,
    /// grouped by namespace (see `filter_cache`).
    pub fn get_repo_contents_local(&self, namespace_filter: &str, feature_filter: &str) -> (r: (
        String,
        Vec<Namespace>,
    ))
        ensures
            r.0@ == self.version(),
            is_filtered_contents(self.features(), namespace_filter@, feature_filter@, r.1@),
    {
        (self.repo_version.clone(), filter_cache(&self.cache, namespace_filter, feature_filter))
    }
}

/// How a store learns of new versions of its repository.
#[derive(Debug)]
pub enum Updates {
    /// By watching the repository on disk at this path.
    WatchDisk(String),
    /// By polling Lekko with these credentials.
    Poll(ConnectionCredentials),
}

/// How a store in the given mode keeps up to date: a static sidecar watches
/// the repository on disk, any other polls Lekko, for which it needs
/// credentials.
pub fn updates(mode: Mode, conn_creds: Option<ConnectionCredentials>, repo_path: String) -> (u: Updates)
    requires
        mode != Mode::Static ==> conn_creds is Some,
    ensures
        mode == Mode::Static ==> (u matches Updates::WatchDisk(p) && p@ == repo_path@),
        mode != Mode::Static ==> (u matches Updates::Poll(cc) && conn_creds == Some(cc)),
{
    match mode {
        Mode::Static => Updates::WatchDisk(repo_path),
        _ => match conn_creds {
            Some(cc) => Updates::Poll(cc),
            None => Updates::WatchDisk(repo_path),
        },
    }
}

/// The request a poll asks for the repository's latest version with.
pub fn repo_version_request(conn_creds: &ConnectionCredentials) -> (r: KeyedRequest<
    GetRepositoryVersionRequest,
>)
    ensures
        r.message.repo_key matches Some(rk) && rk@ == conn_creds.repo_key@,
        r.message.session_key@ == conn_creds.session_key@,
        r.api_keys() == seq![conn_creds.api_key@],
{
    add_api_key(
        GetRepositoryVersionRequest {
            repo_key: Some(conn_creds.repo_key.clone()),
            session_key: conn_creds.session_key.clone(),
        },
        conn_creds.api_key.clone(),
    )
}

/// The request a poll fetches all the contents of a new version with.
pub fn repo_contents_request(conn_creds: &ConnectionCredentials) -> (r: KeyedRequest<
    GetRepositoryContentsRequest,
>)
    ensures
        r.message.repo_key matches Some(rk) && rk@ == conn_creds.repo_key@,
        r.message.session_key@ == conn_creds.session_key@,
        r.message.namespace_name@ == Seq::<char>::empty(),
        r.message.feature_name@ == Seq::<char>::empty(),
        r.api_keys() == seq![conn_creds.api_key@],
{
    add_api_key(
        GetRepositoryContentsRequest {
            repo_key: Some(conn_creds.repo_key.clone()),
            session_key: conn_creds.session_key.clone(),
            namespace_name: String::new(),
            feature_name: String::new(),
        },
        conn_creds.api_key.clone(),
    )
}

} // verus!