//! Flag evaluation metrics: the events the sidecar reports to Lekko for each
//! evaluation, and how it gathers them into batches before sending.
use vstd::prelude::*;

use crate::store::FeatureData;
use crate::types::{FeatureRequestParams, RepositoryKey, RepositoryKeyView};
use crate::value::{strings_view, Context, Kind, KindView, Value};

verus! {

/// A point in time, as seconds and nanoseconds since the Unix epoch.
#[derive(Debug, Clone, Copy)]
pub struct Timestamp {
    pub seconds: i64,
    pub nanos: i32,
}

/// A key of an evaluation context and the type of its value.
#[derive(Debug)]
pub struct ContextKey {
    pub key: String,
    pub value_type: String,
}

/// One evaluation of a feature, as reported to Lekko.
#[derive(Debug)]
pub struct FlagEvaluationEvent {
    pub client_event_time: Option<Timestamp>,
    pub repo_key: Option<RepositoryKey>,
    pub commit_sha: String,
    pub feature_sha: String,
    pub namespace_name: String,
    pub feature_name: String,
    pub context_keys: Vec<ContextKey>,
    /// The path through the feature's constraint tree to the value it
    /// evaluated to.
    pub result_path: Vec<i32>,
}

/// A flag evaluation event on its way to delivery.
#[derive(Debug)]
pub struct TrackFlagEvaluationEvent {
    event: FlagEvaluationEvent,
}

/// The request that delivers a batch of flag evaluation events.
#[derive(Debug)]
pub struct SendFlagEvaluationMetricsRequest {
    pub events: Vec<FlagEvaluationEvent>,
    pub session_key: String,
}

/// The name under which runtime metrics count the sidecar's startups.
pub struct RuntimeMetrics {
    pub startup_counter: String,
}

impl RuntimeMetrics {
    /// The runtime metrics of the sidecar, whose exporter is installed by the
    /// caller.
    pub fn new() -> (m: RuntimeMetrics)
        ensures
            m.startup_counter@ == "lekko_sidecar_startup_counter"@,
    {
        RuntimeMetrics { startup_counter: String::from_str("lekko_sidecar_startup_counter") }
    }
}

/// The name of the type of a context value.
pub open spec fn type_name_of(v: Option<KindView>) -> Seq<char> {
    match v {
        Some(KindView::BoolValue(_)) => "bool"@,
        Some(KindView::IntValue(_)) => "int"@,
        Some(KindView::DoubleValue(_)) => "float"@,
        Some(KindView::StringValue(_)) => "string"@,
        None => "unknown"@,
    }
}

/// The name of the type of a context value: "bool", "int", "float",
/// "string", or "unknown" when it has none.
pub fn value_to_type(v: &Value) -> (s: String)
    ensures
        s@ == type_name_of(v@),
{
    match &v.kind {
        Some(Kind::BoolValue(_)) => String::from_str("bool"),
        Some(Kind::IntValue(_)) => String::from_str("int"),
        Some(Kind::DoubleValue(_)) => String::from_str("float"),
        Some(Kind::StringValue(_)) => String::from_str("string"),
        None => String::from_str("unknown"),
    }
}

/// Each position of an evaluation path, as the 32-bit integer that the event
/// carries (wrapping as a cast does).
pub open spec fn path_as_i32(path: Seq<usize>) -> Seq<i32> {
    path.map_values(|e: usize| e as i32)
}

fn result_path_i32(path: &[usize]) -> (r: Vec<i32>)
    ensures
        r@ == path_as_i32(path@),
{
    let mut r: Vec<i32> = Vec::new();
    let mut i: usize = 0;
    while i < path.len()
        invariant
            i <= path@.len(),
            r@ == path_as_i32(path@.subrange(0, i as int)),
        decreases path@.len() - i,
    {
        r.push(path[i] as i32);
        proof {
            assert(path_as_i32(path@.subrange(0, i + 1)) =~= path_as_i32(
                path@.subrange(0, i as int),
            ).push(path@[i as int] as i32));
        }
        i = i + 1;
    }
    assert(path@.subrange(0, i as int) =~= path@);
    r
}

/// The keys of a context and the type names of their values, in the
/// context's key order.
fn context_keys(context: &Context) -> (r: Vec<ContextKey>)
    ensures
        r@.len() == context.key_order().len(),
        forall|i: int|
            0 <= i < r@.len() ==> #[trigger] r@[i].key@ == context.key_order()[i]
                && r@[i].value_type@ == type_name_of(context@[context.key_order()[i]]@),
{
    let keys = context.keys();
    let mut r: Vec<ContextKey> = Vec::new();
    let mut i: usize = 0;
    while i < keys.len()
        invariant
            i <= keys@.len(),
            strings_view(keys@) == context.key_order(),
            context.key_order().to_set() == context@.dom(),
            r@.len() == i,
            forall|j: int|
                0 <= j < i ==> #[trigger] r@[j].key@ == context.key_order()[j] && r@[j].value_type@
                    == type_name_of(context@[context.key_order()[j]]@),
        decreases keys@.len() - i,
    {
        let key = keys[i].clone();
        assert(strings_view(keys@)[i as int] == keys@[i as int]@);
        let value_type = match context.get(key.as_str()) {
            Some(v) => value_to_type(v),
            None => {
                proof {
                    assert(context.key_order().to_set().contains(key@));
                }
                String::from_str("unknown")
            },
        };
        r.push(ContextKey { key, value_type });
        i = i + 1;
    }
    r
}

/// `e` reports an evaluation of the feature `feature_name` of `namespace` in
/// the repository `rk` at `commit_sha`, whose serialized form has the sha
/// `feature_sha`, in a context with the given keys and values, that gave the
/// value at `result_path`, at time `now`.
pub open spec fn describes_evaluation(
    e: FlagEvaluationEvent,
    rk: RepositoryKeyView,
    namespace: Seq<char>,
    commit_sha: Seq<char>,
    feature_sha: Seq<char>,
    feature_name: Seq<char>,
    context_keys: Seq<Seq<char>>,
    context: Map<Seq<char>, Value>,
    result_path: Seq<usize>,
    now: Timestamp,
) -> bool {
    &&& e.client_event_time == Some(now)
    &&& e.repo_key matches Some(k) && k@ == rk
    &&& e.commit_sha@ == commit_sha
    &&& e.feature_sha@ == feature_sha
    &&& e.namespace_name@ == namespace
    &&& e.feature_name@ == feature_name
    &&& e.context_keys@.len() == context_keys.len()
    &&& forall|i: int|
        0 <= i < e.context_keys@.len() ==> #[trigger] e.context_keys@[i].key@ == context_keys[i]
            && e.context_keys@[i].value_type@ == type_name_of(context[context_keys[i]]@)
    &&& e.result_path@ == path_as_i32(result_path)
}

/// The event that reports one evaluation: where and when it happened, the
/// keys of its context with the types of their values, and the path to the
/// value it gave.
pub fn flag_evaluation_event(
    feature_params: &FeatureRequestParams,
    feature_data: &FeatureData,
    context: &Context,
    result_path: &[usize],
    now: Timestamp,
) -> (e: FlagEvaluationEvent)
    ensures
        describes_evaluation(
            e,
            feature_params.rk@,
            feature_params.namespace@,
            feature_data.commit_sha@,
            feature_data.feature_sha@,
            feature_data.feature.key@,
            context.key_order(),
            context@,
            result_path@,
            now,
        ),
{
    FlagEvaluationEvent {
        client_event_time: Some(now),
        repo_key: Some(feature_params.rk.clone()),
        commit_sha: feature_data.commit_sha.clone(),
        feature_sha: feature_data.feature_sha.clone(),
        namespace_name: feature_params.namespace.clone(),
        feature_name: feature_data.feature.key.clone(),
        context_keys: context_keys(context),
        result_path: result_path_i32(result_path),
    }
}

impl TrackFlagEvaluationEvent {
    /// An event on its way to delivery.
    pub fn new(event: FlagEvaluationEvent) -> (t: TrackFlagEvaluationEvent)
        ensures
            t.event() == event,
    {
        TrackFlagEvaluationEvent { event }
    }

    /// The event carried.
    pub closed spec fn event(&self) -> FlagEvaluationEvent {
        self.event
    }

    /// The event carried, taken out for delivery.
    pub fn into_event(self) -> (e: FlagEvaluationEvent)
        ensures
            e == self.event(),
    {
        self.event
    }
}

/// How many events the sidecar gathers before it sends them without waiting
/// for the next tick.
pub const BATCH_SIZE: usize = 1024;

/// The events gathered since the last batch was sent.
pub struct EventBuffer {
    events: Vec<TrackFlagEvaluationEvent>,
}

impl View for EventBuffer {
    type V = Seq<TrackFlagEvaluationEvent>;

    closed spec fn view(&self) -> Seq<TrackFlagEvaluationEvent> {
        self.events@
    }
}

impl EventBuffer {
    /// The buffer never holds a full batch: a full batch is sent at once.
    #[verifier::type_invariant]
    spec fn below_batch(self) -> bool {
        self.events@.len() < BATCH_SIZE
    }

    /// An empty buffer.
    pub fn new() -> (b: EventBuffer)
        ensures
            b@ == Seq::<TrackFlagEvaluationEvent>::empty(),
    {
        EventBuffer { events: Vec::new() }
    }

    /// Gathers an event; once the buffer holds a full batch, the whole batch
    /// is handed back to be sent and the buffer starts over. No event is lost
    /// and the order is kept: what was buffered, then the event, is what is
    /// handed back followed by what stays buffered.
    pub fn on_event(&mut self, event: TrackFlagEvaluationEvent) -> (batch: Option<Vec<TrackFlagEvaluationEvent>>)
        ensures
            final(self)@.len() < BATCH_SIZE,
            match batch {
                Some(b) => b@ == old(self)@.push(event) && final(self)@ == Seq::<
                    TrackFlagEvaluationEvent,
                >::empty() && b@.len() == BATCH_SIZE,
                None => final(self)@ == old(self)@.push(event) && final(self)@.len() < BATCH_SIZE,
            },
    {
        let mut taken = EventBuffer::new();
        std::mem::swap(&mut taken, self);
        proof { use_type_invariant(&taken); }
        let EventBuffer { mut events } = taken;
        events.push(event);
        if events.len() >= BATCH_SIZE {
            Some(events)
        } else {
            *self = EventBuffer { events };
            None
        }
    }

    /// At each tick, whatever was gathered is handed back to be sent, if
    /// anything was.
    pub fn on_tick(&mut self) -> (batch: Option<Vec<TrackFlagEvaluationEvent>>)
        ensures
            final(self)@ == Seq::<TrackFlagEvaluationEvent>::empty(),
            match batch {
                Some(b) => b@ == old(self)@ && b@.len() > 0,
                None => old(self)@.len() == 0,
            },
    {
        if self.events.len() == 0 {
            None
        } else {
            let mut batch = Vec::new();
            std::mem::swap(&mut batch, &mut self.events);
            Some(batch)
        }
    }
}

/// The request that delivers the given events, under the session key if
/// there is one (else an empty one).
pub fn flag_evaluation_request(events: Vec<TrackFlagEvaluationEvent>, session_key: Option<String>) -> (r:
    SendFlagEvaluationMetricsRequest)
    ensures
        r.events@.len() == events@.len(),
        forall|i: int| 0 <= i < events@.len() ==> #[trigger] r.events@[i] == events@[i].event(),
        r.session_key@ == match session_key {
            Some(k) => k@,
            None => Seq::<char>::empty(),
        },
{
    let mut out: Vec<FlagEvaluationEvent> = Vec::new();
    let mut rest = events;
    let ghost given = rest@;
    let n = rest.len();
    let mut i: usize = 0;
    while i < n
        invariant
            n == given.len(),
            i <= n,
            rest@ == given.subrange(i as int, n as int),
            out@.len() == i,
            forall|j: int| 0 <= j < i ==> #[trigger] out@[j] == given[j].event(),
        decreases n - i,
    {
        assert(rest@[0] == given[i as int]);
        let t = rest.remove(0);
        out.push(t.into_event());
        i = i + 1;
    }
    let session_key = match session_key {
        Some(k) => k,
        None => String::new(),
    };
    SendFlagEvaluationMetricsRequest { events: out, session_key }
}

} // verus!
