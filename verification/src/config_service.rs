//! The configuration service: how the sidecar answers the SDKs of its host
//! pods by evaluating features locally, against its store.
use vstd::prelude::*;

use crate::evaluator::{
    evaluate, feature_type_name, spec_evaluate, EvalContext, EvalContextView, FeatureType,
};
use crate::metrics::{describes_evaluation, flag_evaluation_event, FlagEvaluationEvent, Timestamp};
use crate::status::{status, Code, Status, StatusView};
use crate::store::Store;
use crate::text::concat3;
use crate::types::{
    bool_from_any, check_repo_key, convert_repo_key, mismatch_message, RepositoryKeyView, decode_failure, int_from_any, prost_bool,
    prost_int, prost_string, string_from_any, FeatureRequestParams, Mode,
    PublicRepositoryKey, RepositoryKey,
};
use crate::value::{Any, AnyView, Context};

verus! {

/// The configuration service of the sidecar, for one repository.
pub struct Service {
    pub store: Store,
    pub mode: Mode,
    /// Whether each evaluation is reported to Lekko.
    pub tracks_metrics: bool,
    pub repo_key: RepositoryKey,
}

/// A request for the value of a feature: the repository, namespace and key
/// that name it, and the context to evaluate it in.
pub struct GetValueRequest {
    pub repo_key: Option<PublicRepositoryKey>,
    pub namespace: String,
    pub key: String,
    pub context: Context,
}

/// What a local evaluation gives: the value, and the event that reports the
/// evaluation when the service tracks metrics.
pub struct Evaluation<T> {
    pub value: T,
    pub event: Option<FlagEvaluationEvent>,
}

/// The message of the error for a feature that is not of the requested type.
pub open spec fn type_mismatch_message(requested: FeatureType) -> Seq<char> {
    "type mismatch: requested feature is not of type \""@ + feature_type_name(requested) + "\""@
}

/// What evaluating the requested feature of a store gives, as a value and a
/// path: an invalid-argument error when the store does not hold it, or when
/// it has a type other than the requested one (a feature of unspecified type
/// is taken to have any); else the result of evaluating it in the context.
pub open spec fn spec_value_local(
    store: &Store,
    feature: (Seq<char>, Seq<char>),
    context: Map<Seq<char>, crate::value::Value>,
    requested_type: FeatureType,
) -> Result<(AnyView, Seq<usize>), StatusView> {
    if !store.features().contains_key(feature) {
        Err(status(Code::InvalidArgument, "feature not found"@))
    } else {
        let f = store.features()[feature].feature;
        if f.feature_type != FeatureType::Unspecified && f.feature_type != requested_type {
            Err(status(Code::InvalidArgument, type_mismatch_message(requested_type)))
        } else {
            spec_evaluate(f, context, EvalContextView { namespace: feature.0, feature_name: f.key })
        }
    }
}

impl Service {
    /// Evaluates the requested feature in the context (see
    /// `spec_value_local`). When the service tracks metrics, the evaluation
    /// comes with the event that reports it, stamped `now`.
    pub fn get_value_local(
        &self,
        feature: &FeatureRequestParams,
        context: &Context,
        requested_type: FeatureType,
        now: Timestamp,
    ) -> (r: Result<Evaluation<Any>, Status>)
        ensures
            match spec_value_local(&self.store, (feature.namespace@, feature.feature@), context@, requested_type) {
                Err(e) => r matches Err(e2) && e2@ == e,
                Ok((v, path)) => r matches Ok(ev) && ev.value@ == v && (ev.event is Some
                    <==> self.tracks_metrics) && (ev.event matches Some(event) ==> describes_evaluation(
                    event,
                    feature.rk@,
                    feature.namespace@,
                    self.store.version(),
                    self.store.features()[(feature.namespace@, feature.feature@)].version,
                    self.store.features()[(feature.namespace@, feature.feature@)].feature.key,
                    context.key_order(),
                    context@,
                    path,
                    now,
                )),
            },
    {
        let feature_data = match self.store.get_feature_local(feature.clone()) {
            Some(d) => d,
            None => {
                return Err(Status::invalid_argument("feature not found"));
            },
        };
        let feature_type = feature_data.feature.feature_type;
        if feature_type != FeatureType::Unspecified && feature_type != requested_type {
            let message = concat3(
                "type mismatch: requested feature is not of type \"",
                requested_type.as_str_name(),
                "\"",
            );
            return Err(Status { code: Code::InvalidArgument, message });
        }
        let eval_context = EvalContext {
            namespace: feature.namespace.clone(),
            feature_name: feature_data.feature.key.clone(),
        };
        let (value, path) = match evaluate(&feature_data.feature, context, &eval_context) {
            Ok(r) => r,
            Err(e) => {
                return Err(e);
            },
        };
        let event = if self.tracks_metrics {
            Some(flag_evaluation_event(feature, &feature_data, context, path.as_slice(), now))
        } else {
            None
        };
        Ok(Evaluation { value, event })
    }

    /// Registration of an SDK: it must name the repository the sidecar
    /// serves; nothing else happens.
    pub fn register(&self, repo_key: Option<&PublicRepositoryKey>) -> (r: Result<(), Status>)
        ensures
            match repo_key {
                None => r matches Err(e) && e@ == status(Code::InvalidArgument, "no repo key provided"@),
                Some(rk) => if rk.owner_name@ == self.repo_key.owner_name@ && rk.repo_name@
                    == self.repo_key.repo_name@ {
                    r is Ok
                } else {
                    r matches Err(e) && e@ == status(
                        Code::InvalidArgument,
                        mismatch_message(
                            RepositoryKeyView { owner_name: rk.owner_name@, repo_name: rk.repo_name@ },
                            self.repo_key@,
                        ),
                    )
                },
            },
    {
        match repo_key {
            Some(rk) => {
                let requested = convert_repo_key(rk);
                check_repo_key(&self.repo_key, Some(&requested))
            },
            None => Err(Status::invalid_argument("no repo key provided")),
        }
    }

    /// Evaluates the feature that a request names, as a value of the given
    /// type; an invalid-argument error when the request names no
    /// repository.
    pub fn get_value(&self, request: &GetValueRequest, requested_type: FeatureType, now: Timestamp) -> (r:
        Result<Evaluation<Any>, Status>)
        ensures
            match request.repo_key {
                None => r matches Err(e) && e@ == status(Code::InvalidArgument, "no repo key provided"@),
                Some(rk) => match spec_value_local(&self.store, 
                    (request.namespace@, request.key@),
                    request.context@,
                    requested_type,
                ) {
                    Err(e) => r matches Err(e2) && e2@ == e,
                    Ok((v, path)) => r matches Ok(ev) && ev.value@ == v && (ev.event is Some
                        <==> self.tracks_metrics),
                },
            },
    {
        let rk = match &request.repo_key {
            Some(rk) => convert_repo_key(rk),
            None => {
                return Err(Status::invalid_argument("no repo key provided"));
            },
        };
        let params = FeatureRequestParams {
            rk,
            namespace: request.namespace.clone(),
            feature: request.key.clone(),
        };
        self.get_value_local(&params, &request.context, requested_type, now)
    }

    /// The boolean value of the feature that a request names.
    pub fn get_bool_value(&self, request: &GetValueRequest, now: Timestamp) -> (r: Result<
        Evaluation<bool>,
        Status,
    >)
        ensures
            request.repo_key is None ==> (r matches Err(e) && e@ == status(
                Code::InvalidArgument,
                "no repo key provided"@,
            )),
            request.repo_key is Some ==> match spec_value_local(&self.store, 
                (request.namespace@, request.key@),
                request.context@,
                FeatureType::Bool,
            ) {
                Err(e) => r matches Err(e2) && e2@ == e,
                Ok((v, path)) => match decode_failure(prost_bool(v.value)) {
                    Err(e) => r matches Err(e2) && e2@ == e,
                    Ok(b) => r matches Ok(ev) && ev.value == b && (ev.event is Some
                        <==> self.tracks_metrics),
                },
            },
    {
        let ev = match self.get_value(request, FeatureType::Bool, now) {
            Ok(ev) => ev,
            Err(e) => {
                return Err(e);
            },
        };
        match bool_from_any(&ev.value) {
            Ok(b) => Ok(Evaluation { value: b, event: ev.event }),
            Err(e) => Err(e),
        }
    }

    /// The integer value of the feature that a request names.
    pub fn get_int_value(&self, request: &GetValueRequest, now: Timestamp) -> (r: Result<
        Evaluation<i64>,
        Status,
    >)
        ensures
            request.repo_key is None ==> (r matches Err(e) && e@ == status(
                Code::InvalidArgument,
                "no repo key provided"@,
            )),
            request.repo_key is Some ==> match spec_value_local(&self.store, 
                (request.namespace@, request.key@),
                request.context@,
                FeatureType::Int,
            ) {
                Err(e) => r matches Err(e2) && e2@ == e,
                Ok((v, path)) => match decode_failure(prost_int(v.value)) {
                    Err(e) => r matches Err(e2) && e2@ == e,
                    Ok(i) => r matches Ok(ev) && ev.value == i && (ev.event is Some
                        <==> self.tracks_metrics),
                },
            },
    {
        let ev = match self.get_value(request, FeatureType::Int, now) {
            Ok(ev) => ev,
            Err(e) => {
                return Err(e);
            },
        };
        match int_from_any(&ev.value) {
            Ok(i) => Ok(Evaluation { value: i, event: ev.event }),
            Err(e) => Err(e),
        }
    }

    /// The string value of the feature that a request names.
    pub fn get_string_value(&self, request: &GetValueRequest, now: Timestamp) -> (r: Result<
        Evaluation<String>,
        Status,
    >)
        ensures
            request.repo_key is None ==> (r matches Err(e) && e@ == status(
                Code::InvalidArgument,
                "no repo key provided"@,
            )),
            request.repo_key is Some ==> match spec_value_local(&self.store, 
                (request.namespace@, request.key@),
                request.context@,
                FeatureType::String,
            ) {
                Err(e) => r matches Err(e2) && e2@ == e,
                Ok((v, path)) => match prost_string(v.value) {
                    Err(t) => r matches Err(e2) && e2@ == status(Code::Internal, t),
                    Ok(s) => r matches Ok(ev) && ev.value@ == s && (ev.event is Some
                        <==> self.tracks_metrics),
                },
            },
    {
        let ev = match self.get_value(request, FeatureType::String, now) {
            Ok(ev) => ev,
            Err(e) => {
                return Err(e);
            },
        };
        match string_from_any(&ev.value) {
            Ok(s) => Ok(Evaluation { value: s, event: ev.event }),
            Err(e) => Err(e),
        }
    }

    /// The protobuf value of the feature that a request names, as the
    /// response carries it twice: as `value` and as `value_v2`.
    pub fn get_proto_value(&self, request: &GetValueRequest, now: Timestamp) -> (r: Result<
        Evaluation<(Any, Any)>,
        Status,
    >)
        ensures
            request.repo_key is None ==> (r matches Err(e) && e@ == status(
                Code::InvalidArgument,
                "no repo key provided"@,
            )),
            request.repo_key is Some ==> match spec_value_local(&self.store, 
                (request.namespace@, request.key@),
                request.context@,
                FeatureType::Proto,
            ) {
                Err(e) => r matches Err(e2) && e2@ == e,
                Ok((v, path)) => r matches Ok(ev) && ev.value.0@ == v && ev.value.1@ == v && (
                ev.event is Some <==> self.tracks_metrics),
            },
    {
        let ev = match self.get_value(request, FeatureType::Proto, now) {
            Ok(ev) => ev,
            Err(e) => {
                return Err(e);
            },
        };
        let any = ev.value;
        let value_v2 = Any { type_url: any.type_url.clone(), value: any.value.clone() };
        Ok(Evaluation { value: (any, value_v2), event: ev.event })
    }
}

} // verus!
