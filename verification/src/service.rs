//! How a sidecar in each running mode routes the requests of its host pods:
//! evaluated locally against its store, or proxied to Lekko.
use vstd::prelude::*;

use crate::status::{status, Code, Status, StatusView};
use crate::types::{KeyedRequest, RepositoryKey};

verus! {

/// The running mode of a sidecar. `Default` registers, bootstraps and
/// evaluates locally while polling for updates; `Consistent` asks Lekko
/// every time; `Static` evaluates the repository on disk and never talks to
/// Lekko.
#[derive(Clone, Copy, Debug, PartialEq, Eq, Structural)]
pub enum Mode {
    Default,
    Consistent,
    Static,
}

impl Default for Mode {
    fn default() -> (m: Self)
        ensures
            m == Mode::Default,
    {
        Mode::Default
    }
}

/// A registration of an SDK with the sidecar.
#[derive(Debug)]
pub struct RegisterRequest {
    pub repo_key: Option<RepositoryKey>,
    pub namespace_list: Vec<String>,
}

/// What to do with a registration.
#[derive(Debug)]
pub enum Registration {
    /// Nothing: the mode makes registration pointless.
    Ignore,
    /// Register the repository's namespaces with Lekko under the api key.
    Register(RepositoryKey, Vec<String>, String),
}

/// What to do with a request for a value.
#[derive(Debug)]
pub enum Route<T> {
    /// Forward it to Lekko as this request.
    Proxy(KeyedRequest<T>),
    /// Evaluate it locally; the api key is that of the caller.
    Local(T, String),
}

/// The error of a request without an api key.
pub open spec fn missing_api_key() -> StatusView {
    status(Code::InvalidArgument, "no apikey header provided"@)
}

/// Copies the api key of the incoming headers, if they have one, onto the
/// request forwarded to Lekko, which needs it to authenticate the caller.
pub fn proxy_headers<T>(proxy_request: &mut KeyedRequest<T>, incoming_api_keys: &Vec<String>)
    ensures
        final(proxy_request).message == old(proxy_request).message,
        final(proxy_request).api_keys() == if incoming_api_keys@.len() > 0 {
            old(proxy_request).api_keys().push(incoming_api_keys@[0]@)
        } else {
            old(proxy_request).api_keys()
        },
{
    if incoming_api_keys.len() > 0 {
        proxy_request.append_api_key(incoming_api_keys[0].clone());
    }
}

/// What a registration comes to in a mode: ignored when consistent or
/// static; otherwise registered under the caller's api key, which it must
/// have.
pub fn registration(mode: Mode, request: KeyedRequest<RegisterRequest>) -> (r: Result<Registration, Status>)
    requires
        mode == Mode::Default && request.api_keys().len() > 0 ==> request.message.repo_key is Some,
    ensures
        mode != Mode::Default ==> r matches Ok(Registration::Ignore),
        mode == Mode::Default && request.api_keys().len() == 0 ==> (r matches Err(e) && e@
            == missing_api_key()),
        mode == Mode::Default && request.api_keys().len() > 0 ==> (r matches Ok(
            Registration::Register(rk, namespaces, key),
        ) && request.message.repo_key == Some(rk) && namespaces == request.message.namespace_list
            && key@ == request.api_keys()[0]),
{
    if mode != Mode::Default {
        return Ok(Registration::Ignore);
    }
    let api_key = match request.api_key() {
        Some(k) => k,
        None => {
            return Err(Status::invalid_argument("no apikey header provided"));
        },
    };
    let RegisterRequest { repo_key, namespace_list } = request.message;
    match repo_key {
        Some(rk) => Ok(Registration::Register(rk, namespace_list, api_key)),
        None => Err(Status::invalid_argument("no repo key provided")),
    }
}

/// Where a request for a value goes in a mode: it must carry an api key;
/// a consistent sidecar forwards it to Lekko with that key, any other
/// evaluates it locally.
pub fn route<T>(mode: Mode, request: KeyedRequest<T>) -> (r: Result<Route<T>, Status>)
    ensures
        request.api_keys().len() == 0 ==> (r matches Err(e) && e@ == missing_api_key()),
        request.api_keys().len() > 0 && mode == Mode::Consistent ==> (r matches Ok(Route::Proxy(p))
            && p.message == request.message && p.api_keys() == seq![request.api_keys()[0]]),
        request.api_keys().len() > 0 && mode != Mode::Consistent ==> (r matches Ok(
            Route::Local(m, key),
        ) && m == request.message && key@ == request.api_keys()[0]),
{
    let api_key = match request.api_key() {
        Some(k) => k,
        None => {
            return Err(Status::invalid_argument("no apikey header provided"));
        },
    };
    if mode == Mode::Consistent {
        let KeyedRequest { message, api_keys } = request;
        let mut proxy_req = KeyedRequest::new(message);
        proxy_headers(&mut proxy_req, &api_keys);
        proof {
            assert(proxy_req.api_keys() =~= seq![crate::value::strings_view(api_keys@)[0]]);
        }
        return Ok(Route::Proxy(proxy_req));
    }
    Ok(Route::Local(request.message, api_key))
}

} // verus!
