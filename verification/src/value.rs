//! The values that flow through evaluation: the typed values of an
//! evaluation context, the dynamically typed values that rules compare
//! against, and the opaque payloads that a feature evaluates to.
use vstd::hash_map::StringHashMap;
use vstd::prelude::*;

verus! {

/// The kind of a context value handed in by a client.
#[derive(Debug)]
pub enum Kind {
    BoolValue(bool),
    IntValue(i64),
    /// A double, by its IEEE-754 bit pattern.
    DoubleValue(u64),
    StringValue(String),
}

/// A context value handed in by a client.
#[derive(Debug)]
pub struct Value {
    pub kind: Option<Kind>,
}

pub enum KindView {
    BoolValue(bool),
    IntValue(i64),
    DoubleValue(u64),
    StringValue(Seq<char>),
}

impl View for Kind {
    type V = KindView;

    open spec fn view(&self) -> KindView {
        match self {
            Kind::BoolValue(b) => KindView::BoolValue(*b),
            Kind::IntValue(i) => KindView::IntValue(*i),
            Kind::DoubleValue(d) => KindView::DoubleValue(*d),
            Kind::StringValue(s) => KindView::StringValue(s@),
        }
    }
}

impl View for Value {
    type V = Option<KindView>;

    open spec fn view(&self) -> Option<KindView> {
        match self.kind {
            Some(k) => Some(k@),
            None => None,
        }
    }
}

/// The kind of a dynamically typed value, as rules hold it for comparison.
#[derive(Debug)]
pub enum ProtoKind {
    NullValue,
    /// A double, by its IEEE-754 bit pattern.
    NumberValue(u64),
    StringValue(String),
    BoolValue(bool),
    /// A structured value; rules never look inside one.
    StructValue,
    ListValue(Vec<ProtoValue>),
}

/// A dynamically typed value.
#[derive(Debug)]
pub struct ProtoValue {
    pub kind: Option<ProtoKind>,
}

pub enum ProtoKindView {
    NullValue,
    NumberValue(u64),
    StringValue(Seq<char>),
    BoolValue(bool),
    StructValue,
    ListValue(Seq<ProtoValueView>),
}

pub struct ProtoValueView {
    pub kind: Option<ProtoKindView>,
}

pub open spec fn proto_value_view(v: ProtoValue) -> ProtoValueView
    decreases v,
{
    ProtoValueView {
        kind: match v.kind {
            None => None,
            Some(k) => Some(proto_kind_view(k)),
        },
    }
}

pub open spec fn proto_kind_view(k: ProtoKind) -> ProtoKindView
    decreases k,
{
    match k {
        ProtoKind::NullValue => ProtoKindView::NullValue,
        ProtoKind::NumberValue(n) => ProtoKindView::NumberValue(n),
        ProtoKind::StringValue(s) => ProtoKindView::StringValue(s@),
        ProtoKind::BoolValue(b) => ProtoKindView::BoolValue(b),
        ProtoKind::StructValue => ProtoKindView::StructValue,
        ProtoKind::ListValue(l) => ProtoKindView::ListValue(proto_values_view(l@)),
    }
}

impl View for ProtoKind {
    type V = ProtoKindView;

    open spec fn view(&self) -> ProtoKindView {
        proto_kind_view(*self)
    }
}

pub open spec fn proto_values_view(s: Seq<ProtoValue>) -> Seq<ProtoValueView>
    decreases s,
{
    if s.len() == 0 {
        Seq::empty()
    } else {
        seq![proto_value_view(s[0])] + proto_values_view(s.subrange(1, s.len() as int))
    }
}

/// The view of a list is the list of the views of its elements.
pub proof fn lemma_proto_values_view(s: Seq<ProtoValue>)
    ensures
        proto_values_view(s).len() == s.len(),
        forall|i: int| 0 <= i < s.len() ==> #[trigger] proto_values_view(s)[i] == proto_value_view(s[i]),
    decreases s.len(),
{
    if s.len() > 0 {
        lemma_proto_values_view(s.subrange(1, s.len() as int));
    }
}

fn clone_proto_value(v: &ProtoValue) -> (r: ProtoValue)
    ensures
        r@ == v@,
    decreases v,
{
    let kind = match &v.kind {
        None => None,
        Some(k) => Some(
            match k {
                ProtoKind::NullValue => ProtoKind::NullValue,
                ProtoKind::NumberValue(n) => ProtoKind::NumberValue(*n),
                ProtoKind::StringValue(s) => ProtoKind::StringValue(s.clone()),
                ProtoKind::BoolValue(b) => ProtoKind::BoolValue(*b),
                ProtoKind::StructValue => ProtoKind::StructValue,
                ProtoKind::ListValue(l) => ProtoKind::ListValue(clone_proto_values(l)),
            },
        ),
    };
    ProtoValue { kind }
}

fn clone_proto_values(l: &Vec<ProtoValue>) -> (r: Vec<ProtoValue>)
    ensures
        proto_values_view(r@) == proto_values_view(l@),
    decreases l,
{
    let mut r: Vec<ProtoValue> = Vec::new();
    let mut i: usize = 0;
    while i < l.len()
        invariant
            i <= l.len(),
            r@.len() == i,
            forall|j: int| 0 <= j < i ==> #[trigger] proto_value_view(r@[j]) == proto_value_view(l@[j]),
        decreases l.len() - i,
    {
        r.push(clone_proto_value(&l[i]));
        i = i + 1;
    }
    proof {
        lemma_proto_values_view(r@);
        lemma_proto_values_view(l@);
        assert(proto_values_view(r@) =~= proto_values_view(l@));
    }
    r
}

impl Clone for ProtoValue {
    fn clone(&self) -> (r: Self)
        ensures
            r@ == self@,
    {
        clone_proto_value(self)
    }
}

impl Clone for Any {
    fn clone(&self) -> (r: Self)
        ensures
            r@ == self@,
    {
        let value = self.value.clone();
        assert(value@ =~= self.value@);
        Any { type_url: self.type_url.clone(), value }
    }
}

impl View for ProtoValue {
    type V = ProtoValueView;

    open spec fn view(&self) -> ProtoValueView {
        proto_value_view(*self)
    }
}

/// A serialized message together with the URL of its type.
#[derive(Debug)]
pub struct Any {
    pub type_url: String,
    pub value: Vec<u8>,
}

pub struct AnyView {
    pub type_url: Seq<char>,
    pub value: Seq<u8>,
}

impl View for Any {
    type V = AnyView;

    open spec fn view(&self) -> AnyView {
        AnyView { type_url: self.type_url@, value: self.value@ }
    }
}

/// The context of an evaluation request: the values the client handed in, by
/// key, with the keys in the order they were first set.
pub struct Context {
    entries: StringHashMap<Value>,
    keys: Vec<String>,
}

/// The characters of each string.
pub open spec fn strings_view(s: Seq<String>) -> Seq<Seq<char>> {
    s.map_values(|k: String| k@)
}

impl View for Context {
    type V = Map<Seq<char>, Value>;

    closed spec fn view(&self) -> Map<Seq<char>, Value> {
        self.entries@
    }
}

impl Context {
    /// Each key with a value occurs once among the keys, and nothing else does.
    #[verifier::type_invariant]
    spec fn keys_match(self) -> bool {
        &&& strings_view(self.keys@).no_duplicates()
        &&& strings_view(self.keys@).to_set() == self.entries@.dom()
    }

    /// The keys that have a value, in the order they were first set.
    pub closed spec fn key_order(&self) -> Seq<Seq<char>> {
        strings_view(self.keys@)
    }

    /// An empty context.
    pub fn new() -> (c: Context)
        ensures
            c@ == Map::<Seq<char>, Value>::empty(),
            c.key_order() == Seq::<Seq<char>>::empty(),
    {
        let entries = StringHashMap::new();
        let keys: Vec<String> = Vec::new();
        assert(strings_view(keys@).to_set() =~= entries@.dom());
        assert(strings_view(keys@).no_duplicates());
        Context { entries, keys }
    }

    /// Sets the value of `key`, replacing any it had; a new key goes last in
    /// the key order.
    pub fn insert(&mut self, key: String, value: Value)
        ensures
            final(self)@ == old(self)@.insert(key@, value),
            final(self).key_order() == if old(self)@.contains_key(key@) {
                old(self).key_order()
            } else {
                old(self).key_order().push(key@)
            },
    {
        proof { use_type_invariant(&*self); }
        let known = self.entries.contains_key(key.as_str());
        let mut taken = Context::new();
        std::mem::swap(&mut taken, self);
        proof { use_type_invariant(&taken); }
        let Context { mut entries, mut keys } = taken;
        let ghost old_keys = keys@;
        if !known {
            keys.push(key.clone());
            proof {
                assert(strings_view(keys@) =~= strings_view(old_keys).push(key@));
                assert(!strings_view(old_keys).contains(key@)) by {
                    if strings_view(old_keys).contains(key@) {
                        assert(strings_view(old_keys).to_set().contains(key@));
                    }
                }
            }
        }
        entries.insert(key, value);
        proof {
            broadcast use vstd::seq_lib::group_seq_properties;
            assert forall|x: Seq<char>| #[trigger] strings_view(keys@).to_set().contains(x) <==> entries@.dom().contains(x) by {
                if !known {
                    if x == key@ {
                        assert(strings_view(keys@)[strings_view(old_keys).len() as int] == x);
                    } else if strings_view(old_keys).contains(x) {
                        let j = choose|j: int| 0 <= j < strings_view(old_keys).len() && strings_view(old_keys)[j] == x;
                        assert(strings_view(keys@)[j] == x);
                    }
                }
            }
            assert(strings_view(keys@).to_set() =~= entries@.dom());
        }
        *self = Context { entries, keys };
    }

    /// Whether `key` has a value.
    pub fn contains_key(&self, key: &str) -> (b: bool)
        ensures
            b == self@.contains_key(key@),
    {
        self.entries.contains_key(key)
    }

    /// The value of `key`, if it has one.
    pub fn get(&self, key: &str) -> (v: Option<&Value>)
        ensures
            match v {
                Some(v) => self@.contains_key(key@) && *v == self@[key@],
                None => !self@.contains_key(key@),
            },
    {
        self.entries.get(key)
    }

    /// The keys that have a value, in the order they were first set.
    pub fn keys(&self) -> (v: Vec<String>)
        ensures
            strings_view(v@) == self.key_order(),
            self.key_order().no_duplicates(),
            self.key_order().to_set() == self@.dom(),
    {
        proof { use_type_invariant(self); }
        let mut v: Vec<String> = Vec::new();
        let mut i: usize = 0;
        while i < self.keys.len()
            invariant
                i <= self.keys@.len(),
                strings_view(v@) == strings_view(self.keys@.subrange(0, i as int)),
            decreases self.keys@.len() - i,
        {
            v.push(self.keys[i].clone());
            proof {
                assert(strings_view(self.keys@.subrange(0, i + 1)) =~= strings_view(
                    self.keys@.subrange(0, i as int),
                ).push(self.keys@[i as int]@));
            }
            i = i + 1;
        }
        assert(self.keys@.subrange(0, i as int) =~= self.keys@);
        v
    }
}

} // verus!
