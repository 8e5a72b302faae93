//! A proxy that serves many repositories for many clients: it keeps one store
//! per api key and repository, filled on first use from Lekko.
use vstd::prelude::*;

use crate::backend::{GetRepositoryContentsRequest, RegisterClientRequest};
use crate::status::{status, Code, Status};
use crate::types::{add_api_key, KeyedRequest, RepositoryKey};

verus! {

/// What a proxied store is kept under: the caller's api key and the
/// repository.
#[derive(Debug)]
pub struct StoreKey {
    pub api_key: String,
    pub owner_name: String,
    pub repo_name: String,
}

impl Clone for StoreKey {
    fn clone(&self) -> (r: Self)
        ensures
            r.api_key@ == self.api_key@,
            r.owner_name@ == self.owner_name@,
            r.repo_name@ == self.repo_name@,
    {
        StoreKey {
            api_key: self.api_key.clone(),
            owner_name: self.owner_name.clone(),
            repo_name: self.repo_name.clone(),
        }
    }
}

/// The store key of a request: the api key of its headers and the repository
/// it names; an invalid-argument error when it lacks either, the api key
/// checked first.
pub fn store_key(api_key: Option<String>, repo_key: Option<&RepositoryKey>) -> (r: Result<StoreKey, Status>)
    ensures
        match api_key {
            None => r matches Err(e) && e@ == status(Code::InvalidArgument, "no api key provided"@),
            Some(k) => match repo_key {
                None => r matches Err(e) && e@ == status(
                    Code::InvalidArgument,
                    "no repo key provided"@,
                ),
                Some(rk) => r matches Ok(sk) && sk.api_key@ == k@ && sk.owner_name@
                    == rk.owner_name@ && sk.repo_name@ == rk.repo_name@,
            },
        },
{
    let api_key = match api_key {
        Some(k) => k,
        None => {
            return Err(Status::invalid_argument("no api key provided"));
        },
    };
    match repo_key {
        Some(rk) => Ok(
            StoreKey { api_key, owner_name: rk.owner_name.clone(), repo_name: rk.repo_name.clone() },
        ),
        None => Err(Status::invalid_argument("no repo key provided")),
    }
}

impl StoreKey {
    /// The repository the key names.
    pub fn repo_key(&self) -> (rk: RepositoryKey)
        ensures
            rk.owner_name@ == self.owner_name@,
            rk.repo_name@ == self.repo_name@,
    {
        RepositoryKey { owner_name: self.owner_name.clone(), repo_name: self.repo_name.clone() }
    }

    /// The request that fetches all the contents of the key's repository,
    /// under the key's api key, to fill a new store.
    pub fn bootstrap_request(&self) -> (r: KeyedRequest<GetRepositoryContentsRequest>)
        ensures
            r.message.repo_key matches Some(rk) && rk.owner_name@ == self.owner_name@
                && rk.repo_name@ == self.repo_name@,
            r.message.namespace_name@ == Seq::<char>::empty(),
            r.message.feature_name@ == Seq::<char>::empty(),
            r.message.session_key@ == Seq::<char>::empty(),
            r.api_keys() == seq![self.api_key@],
    {
        add_api_key(
            GetRepositoryContentsRequest {
                repo_key: Some(self.repo_key()),
                session_key: String::new(),
                namespace_name: String::new(),
                feature_name: String::new(),
            },
            self.api_key.clone(),
        )
    }

    /// The request that registers a new store with Lekko, for the version it
    /// was filled with, under the key's api key.
    pub fn register_request(&self, bootstrap_sha: String) -> (r: KeyedRequest<RegisterClientRequest>)
        ensures
            r.message.repo_key matches Some(rk) && rk.owner_name@ == self.owner_name@
                && rk.repo_name@ == self.repo_name@,
            r.message.initial_bootstrap_sha@ == bootstrap_sha@,
            r.message.sidecar_version@ == "0.0"@,
            r.message.namespace_list@.len() == 0,
            r.api_keys() == seq![self.api_key@],
    {
        add_api_key(
            RegisterClientRequest {
                repo_key: Some(self.repo_key()),
                namespace_list: Vec::new(),
                initial_bootstrap_sha: bootstrap_sha,
                sidecar_version: String::from_str("0.0"),
            },
            self.api_key.clone(),
        )
    }
}

/// The proxy cannot issue developer access tokens.
pub fn developer_access_token_refusal() -> (r: Status)
    ensures
        r@ == status(Code::Unimplemented, "cannot issue tokens from plekko"@),
{
    Status::unimplemented("cannot issue tokens from plekko")
}

} // verus!
