//! The distribution service that the sidecar offers in place of Lekko's: it
//! answers for the repository it serves from its store, and forwards what it
//! cannot answer to Lekko with the sidecar's credentials.
use vstd::prelude::*;

use crate::backend::{
    GetRepositoryContentsRequest, GetRepositoryContentsResponse, RegisterClientRequest,
};
use crate::status::{status, Code, Status};
use crate::store::{is_filtered_contents, Store};
use crate::types::{
    check_repo_key, mismatch_message, override_api_key, same_repo, ConnectionCredentials, KeyedRequest, RepositoryKey,
};

verus! {

/// The distribution service of the sidecar, for one repository.
pub struct Service {
    pub conn_creds: Option<ConnectionCredentials>,
    pub store: Store,
    pub repo_key: RepositoryKey,
    pub sidecar_version: String,
}

/// The repository key that a request names, by its view.
pub open spec fn requested_key(rk: Option<RepositoryKey>) -> Option<crate::types::RepositoryKeyView> {
    match rk {
        Some(k) => Some(k@),
        None => None,
    }
}

/// The error a request gets for the repository it names, if any: none when it
/// names the one served.
pub open spec fn repo_key_refused(served: crate::types::RepositoryKeyView, requested: Option<
    crate::types::RepositoryKeyView,
>) -> bool {
    match requested {
        None => true,
        Some(rk) => !same_repo(rk, served),
    }
}

impl Service {
    /// Whether a request goes on to Lekko: only when there is an api key to
    /// send with it, the sidecar's or the request's own.
    pub open spec fn forwards(&self, api_keys: Seq<Seq<char>>) -> bool {
        self.conn_creds is Some || api_keys.len() > 0
    }

    /// The version of the repository that the store holds.
    pub fn get_repository_version(&self, repo_key: Option<&RepositoryKey>) -> (r: Result<String, Status>)
        ensures
            match repo_key {
                None => r matches Err(e) && e@ == status(Code::InvalidArgument, "no repo key provided"@),
                Some(rk) => if same_repo(rk@, self.repo_key@) {
                    r matches Ok(v) && v@ == self.store.version()
                } else {
                    r matches Err(e) && e@ == status(
                        Code::InvalidArgument,
                        mismatch_message(rk@, self.repo_key@),
                    )
                },
            },
    {
        match check_repo_key(&self.repo_key, repo_key) {
            Ok(()) => Ok(self.store.get_version_local()),
            Err(e) => Err(e),
        }
    }

    /// The contents of the repository that the store holds, filtered by the
    /// namespace and feature that the request names (empty names match all).
    pub fn get_repository_contents(&self, request: &GetRepositoryContentsRequest) -> (r: Result<
        GetRepositoryContentsResponse,
        Status,
    >)
        ensures
            match request.repo_key {
                None => r matches Err(e) && e@ == status(Code::InvalidArgument, "no repo key provided"@),
                Some(rk) => if same_repo(rk@, self.repo_key@) {
                    r matches Ok(resp) && resp.commit_sha@ == self.store.version() && is_filtered_contents(
                        self.store.features(),
                        request.namespace_name@,
                        request.feature_name@,
                        resp.namespaces@,
                    )
                } else {
                    r matches Err(e) && e@ == status(
                        Code::InvalidArgument,
                        mismatch_message(rk@, self.repo_key@),
                    )
                },
            },
    {
        match check_repo_key(&self.repo_key, request.repo_key.as_ref()) {
            Ok(()) => {},
            Err(e) => {
                return Err(e);
            },
        }
        let (version, namespaces) = self.store.get_repo_contents_local(
            request.namespace_name.as_str(),
            request.feature_name.as_str(),
        );
        Ok(GetRepositoryContentsResponse { namespaces, commit_sha: version })
    }

    /// A request to forward to Lekko, with the sidecar's api key when it
    /// carries none; `None` when neither has a key, and the request is
    /// answered with an empty response instead.
    pub fn forward<T>(&self, request: KeyedRequest<T>) -> (r: Option<KeyedRequest<T>>)
        ensures
            match r {
                Some(f) => self.forwards(request.api_keys()) && f.message == request.message
                    && f.api_keys() == match self.conn_creds {
                    Some(cc) => if request.api_keys().len() == 0 {
                        seq![cc.api_key@]
                    } else {
                        request.api_keys()
                    },
                    None => request.api_keys(),
                },
                None => !self.forwards(request.api_keys()),
            },
    {
        if self.conn_creds.is_none() && request.api_keys.len() == 0 {
            return None;
        }
        Some(override_api_key(request, &self.conn_creds))
    }

    /// A client registration to forward to Lekko, for the repository served:
    /// the sidecar's version is appended to the request's. `Ok(None)` when
    /// nothing is to be forwarded (see `forward`).
    pub fn register_client(&self, request: KeyedRequest<RegisterClientRequest>) -> (r: Result<
        Option<KeyedRequest<RegisterClientRequest>>,
        Status,
    >)
        ensures
            repo_key_refused(self.repo_key@, requested_key(request.message.repo_key)) <==> r is Err,
            request.message.repo_key is None ==> (r matches Err(e) && e@ == status(
                Code::InvalidArgument,
                "no repo key provided"@,
            )),
            match request.message.repo_key {
                Some(rk) => !same_repo(rk@, self.repo_key@) ==> (r matches Err(e) && e@ == status(
                    Code::InvalidArgument,
                    mismatch_message(rk@, self.repo_key@),
                )),
                None => true,
            },
            r matches Ok(None) ==> !self.forwards(request.api_keys()),
            r matches Ok(Some(f)) ==> {
                &&& self.forwards(request.api_keys())
                &&& f.message.sidecar_version@ == request.message.sidecar_version@
                    + self.sidecar_version@
                &&& f.message.repo_key == request.message.repo_key
                &&& f.message.namespace_list == request.message.namespace_list
                &&& f.message.initial_bootstrap_sha == request.message.initial_bootstrap_sha
                &&& f.api_keys() == match self.conn_creds {
                    Some(cc) => if request.api_keys().len() == 0 {
                        seq![cc.api_key@]
                    } else {
                        request.api_keys()
                    },
                    None => request.api_keys(),
                }
            },
    {
        match check_repo_key(&self.repo_key, request.message.repo_key.as_ref()) {
            Ok(()) => {},
            Err(e) => {
                return Err(e);
            },
        }
        if self.conn_creds.is_none() && request.api_keys.len() == 0 {
            return Ok(None);
        }
        let KeyedRequest { message, api_keys } = request;
        let RegisterClientRequest { repo_key, namespace_list, initial_bootstrap_sha, sidecar_version } =
            message;
        let mut sidecar_version = sidecar_version;
        sidecar_version.append(self.sidecar_version.as_str());
        let forwarded = KeyedRequest {
            message: RegisterClientRequest {
                repo_key,
                namespace_list,
                initial_bootstrap_sha,
                sidecar_version,
            },
            api_keys,
        };
        Ok(Some(override_api_key(forwarded, &self.conn_creds)))
    }

    /// The sidecar cannot issue developer access tokens.
    pub fn get_developer_access_token(&self) -> (r: Status)
        ensures
            r@ == status(Code::Unimplemented, "cannot issue tokens from sidecar"@),
    {
        Status::unimplemented("cannot issue tokens from sidecar")
    }
}

} // verus!
