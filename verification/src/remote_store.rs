//! The store of a sidecar that keeps itself up to date with Lekko. It starts
//! unregistered; a single successful registration makes it registered, after
//! which it polls for new versions and refuses further registrations. A
//! sidecar that runs off a repository on disk reloads it when a serialized
//! feature changes instead.
use vstd::prelude::*;

use crate::backend::{
    DeregisterClientRequest, Feature, GetRepositoryContentsRequest, GetRepositoryContentsResponse,
    GetRepositoryVersionRequest, Namespace, RegisterClientRequest,
};
use crate::state::CredentialsView;
use crate::status::{status, Code, Status};
use crate::store::{
    all_features_present, contents_map, repo_contents_request, repo_version_request, FeatureData,
    FeatureInfoView, Store as Contents,
};
use crate::evaluator::{Feature as FeatureTree, FeatureView};
use crate::text::concat;
use crate::types::{add_api_key, ConnectionCredentials, FeatureRequestParams, KeyedRequest, RepositoryKey};

verus! {

/// Whether `pattern`, as the regex crate compiles it, matches somewhere in
/// `text`.
pub uninterp spec fn regex_is_match(pattern: Seq<char>, text: Seq<char>) -> bool;

/// Whether the regex crate compiles `pattern` (with its default limits).
pub uninterp spec fn regex_compiles(pattern: Seq<char>) -> bool;

/// Calls `regex::Regex::new` on the pattern and `Regex::is_match` on the text.
/// The contract claims that the call succeeds exactly when the pattern
/// compiles, a function of the pattern alone, and that a compiled pattern's
/// answer is whether it matches the text, a function of the pattern and the
/// text alone; a pattern that does not compile gives the error's text, of
/// which nothing is claimed.
#[verifier::external_body]
fn regex_match(pattern: &str, text: &str) -> (r: Result<bool, String>)
    ensures
        r is Ok <==> regex_compiles(pattern@),
        r matches Ok(b) ==> b == regex_is_match(pattern@, text@),
{
    match regex::Regex::new(pattern) {
        Ok(re) => Ok(re.is_match(text)),
        Err(e) => Err(e.to_string()),
    }
}

/// The paths of serialized features in a config repository on disk.
pub const PROTO_BIN_FILE: &'static str = "^.*/gen/proto/[\\w.-]+\\.proto\\.bin$";

/// What a change on disk did to a path.
#[derive(Clone, Copy, Debug, PartialEq, Eq, Structural)]
pub enum WatchEventKind {
    Create,
    Modify,
    Remove,
    /// Any other event, such as an access.
    Other,
}

/// Whether a path is that of a serialized feature, or the error of compiling
/// the pattern that says so.
pub fn is_proto_bin_file(path: &str) -> (r: Result<bool, String>)
    ensures
        r is Ok <==> regex_compiles(PROTO_BIN_FILE@),
        r matches Ok(b) ==> b == regex_is_match(PROTO_BIN_FILE@, path@),
{
    regex_match(PROTO_BIN_FILE, path)
}

/// Whether a change on disk calls for reloading the repository: a creation,
/// modification or removal of some serialized feature. Paths that are not
/// unicode (`None`) never do. An error exactly when some path had to be
/// matched and the pattern does not compile.
pub fn should_reload(kind: WatchEventKind, paths: &Vec<Option<String>>) -> (r: Result<bool, String>)
    ensures
        r is Err <==> (kind != WatchEventKind::Other && !regex_compiles(PROTO_BIN_FILE@) && exists|i: int|
            0 <= i < paths@.len() && #[trigger] paths@[i] is Some),
        r matches Ok(b) ==> (b <==> (kind != WatchEventKind::Other && exists|i: int|
            0 <= i < paths@.len() && (#[trigger] paths@[i] matches Some(p) && regex_is_match(
                PROTO_BIN_FILE@,
                p@,
            )))),
{
    if kind == WatchEventKind::Other {
        return Ok(false);
    }
    let mut i: usize = 0;
    while i < paths.len()
        invariant
            kind != WatchEventKind::Other,
            i <= paths@.len(),
            (exists|j: int| 0 <= j < i && #[trigger] paths@[j] is Some) ==> regex_compiles(PROTO_BIN_FILE@),
            forall|j: int|
                0 <= j < i ==> !(#[trigger] paths@[j] matches Some(p) && regex_is_match(
                    PROTO_BIN_FILE@,
                    p@,
                )),
        decreases paths@.len() - i,
    {
        match &paths[i] {
            Some(p) => match is_proto_bin_file(p.as_str()) {
                Ok(true) => {
                    assert(paths@[i as int] matches Some(q) && regex_is_match(PROTO_BIN_FILE@, q@));
                    return Ok(true);
                },
                Ok(false) => {},
                Err(e) => {
                    assert(paths@[i as int] is Some);
                    return Err(e);
                },
            },
            None => {},
        }
        i = i + 1;
    }
    assert(forall|j: int| 0 <= j < paths@.len() && #[trigger] paths@[j] is Some ==> regex_compiles(
        PROTO_BIN_FILE@,
    ));
    Ok(false)
}

/// The contents of a repository at no version: no commit and no namespace.
pub open spec fn no_contents() -> Map<(Seq<char>, Seq<char>), FeatureInfoView> {
    Map::empty()
}

/// The store of a sidecar that registers with Lekko and polls it.
pub struct Store {
    contents: Contents,
    conn_creds: ConnectionCredentials,
    registered: bool,
}

impl Store {
    /// The features the store holds, by (namespace, feature name).
    pub closed spec fn features(&self) -> Map<(Seq<char>, Seq<char>), FeatureInfoView> {
        self.contents.features()
    }

    /// The commit sha of the contents the store holds.
    pub closed spec fn version(&self) -> Seq<char> {
        self.contents.version()
    }

    /// Whether a registration has completed.
    pub closed spec fn registered(&self) -> bool {
        self.registered
    }

    /// The credentials the store talks to Lekko with.
    pub closed spec fn credentials(&self) -> CredentialsView {
        self.conn_creds@
    }

    /// A store filled from a bootstrap, if there is one, and otherwise
    /// empty at no version; unregistered, with empty credentials.
    pub fn new(bootstrap_data: Option<GetRepositoryContentsResponse>) -> (s: Store)
        requires
            bootstrap_data matches Some(b) ==> all_features_present(b.namespaces@),
        ensures
            !s.registered(),
            s.credentials().api_key == Seq::<char>::empty(),
            s.credentials().session_key == Seq::<char>::empty(),
            s.credentials().repo_key.owner_name == Seq::<char>::empty(),
            s.credentials().repo_key.repo_name == Seq::<char>::empty(),
            match bootstrap_data {
                None => s.features() == no_contents() && s.version() == Seq::<char>::empty(),
                Some(b) => s.features() == contents_map(b.namespaces@) && s.version()
                    == b.commit_sha@,
            },
    {
        let contents = match bootstrap_data {
            Some(b) => Contents::new(b),
            None => {
                let empty: Vec<Namespace> = Vec::new();
                assert(contents_map(empty@) == no_contents()) by {
                    assert(contents_map(empty@) =~= no_contents());
                }
                Contents::new(GetRepositoryContentsResponse { commit_sha: String::new(), namespaces: empty })
            },
        };
        Store {
            contents,
            conn_creds: ConnectionCredentials {
                repo_key: RepositoryKey { owner_name: String::new(), repo_name: String::new() },
                api_key: String::new(),
                session_key: String::new(),
            },
            registered: false,
        }
    }

    /// The request that registers the sidecar with Lekko, for the version
    /// the store holds (its bootstrap), under `api_key`.
    pub fn register_request(&self, repo_key: RepositoryKey, namespaces: Vec<String>, api_key: String) -> (r:
        KeyedRequest<RegisterClientRequest>)
        ensures
            r.message.repo_key matches Some(rk) && rk@ == repo_key@,
            r.message.initial_bootstrap_sha@ == self.version(),
            r.message.sidecar_version@ == Seq::<char>::empty(),
            r.message.namespace_list == namespaces,
            r.api_keys() == seq![api_key@],
    {
        add_api_key(
            RegisterClientRequest {
                repo_key: Some(repo_key),
                initial_bootstrap_sha: self.contents.get_version_local(),
                sidecar_version: String::new(),
                namespace_list: namespaces,
            },
            api_key,
        )
    }

    /// The error a registration gets when Lekko cannot be reached: the
    /// client is expected to retry.
    pub fn registration_failed(error_text: &str) -> (e: Status)
        ensures
            e@ == status(Code::ResourceExhausted, "error when registering with lekko "@ + error_text@),
    {
        Status { code: Code::ResourceExhausted, message: concat("error when registering with lekko ", error_text) }
    }

    /// The request that fetches all of a repository's contents at
    /// registration, under `api_key`.
    pub fn registration_contents_request(repo_key: RepositoryKey, api_key: String) -> (r: KeyedRequest<
        GetRepositoryContentsRequest,
    >)
        ensures
            r.message.repo_key matches Some(rk) && rk@ == repo_key@,
            r.message.session_key@ == Seq::<char>::empty(),
            r.message.namespace_name@ == Seq::<char>::empty(),
            r.message.feature_name@ == Seq::<char>::empty(),
            r.api_keys() == seq![api_key@],
    {
        add_api_key(
            GetRepositoryContentsRequest {
                repo_key: Some(repo_key),
                session_key: String::new(),
                namespace_name: String::new(),
                feature_name: String::new(),
            },
            api_key,
        )
    }

    /// Completes a registration with the contents fetched and the
    /// credentials obtained: the first one fills the store and registers it;
    /// any later one is refused and changes nothing.
    pub fn complete_registration(
        &mut self,
        contents: GetRepositoryContentsResponse,
        conn_creds: ConnectionCredentials,
    ) -> (r: Result<(), Status>)
        requires
            all_features_present(contents.namespaces@),
        ensures
            old(self).registered() ==> (r matches Err(e) && e@ == status(
                Code::AlreadyExists,
                "register has already been called on this sidecar, ignoring register RPC"@,
            )) && final(self).features() == old(self).features() && final(self).version()
                == old(self).version() && final(self).credentials() == old(self).credentials()
                && final(self).registered(),
            !old(self).registered() ==> r is Ok && final(self).registered() && final(self).features()
                == contents_map(contents.namespaces@) && final(self).version() == contents.commit_sha@
                && final(self).credentials() == conn_creds@,
    {
        if self.registered {
            return Err(
                Status::already_exists(
                    "register has already been called on this sidecar, ignoring register RPC",
                ),
            );
        }
        self.contents.replace_contents(contents);
        self.conn_creds = conn_creds;
        self.registered = true;
        Ok(())
    }

    /// Whether `other` holds what `self` holds: the same contents at the same
    /// version, the same credentials, and the same registration.
    pub open spec fn same_as(&self, other: &Store) -> bool {
        &&& self.features() == other.features()
        &&& self.version() == other.version()
        &&& self.credentials() == other.credentials()
        &&& self.registered() == other.registered()
    }

    /// What a registration does to the store `before`, given what its two
    /// calls answered: `session_reply` is the session key that
    /// `register_client` granted, or the text of its error;
    /// `contents_reply` is what the contents fetch that follows a granted
    /// session answered. A failed call leaves the store as it was; a
    /// completed one is then as `complete_registration` says.
    pub open spec fn registers(
        before: Store,
        after: Store,
        repo_key: RepositoryKey,
        api_key: Seq<char>,
        session_reply: Result<String, String>,
        contents_reply: Option<Result<GetRepositoryContentsResponse, Status>>,
        r: Result<(), Status>,
    ) -> bool {
        match session_reply {
            Err(t) => {
                &&& r matches Err(e) && e@ == status(
                    Code::ResourceExhausted,
                    "error when registering with lekko "@ + t@,
                )
                &&& after.same_as(&before)
            },
            Ok(k) => match contents_reply {
                Some(Err(s)) => r matches Err(e) && e@ == s@ && after.same_as(&before),
                Some(Ok(c)) => if before.registered() {
                    &&& r matches Err(e) && e@ == status(
                        Code::AlreadyExists,
                        "register has already been called on this sidecar, ignoring register RPC"@,
                    )
                    &&& after.same_as(&before)
                } else {
                    &&& r is Ok
                    &&& after.registered()
                    &&& after.features() == contents_map(c.namespaces@)
                    &&& after.version() == c.commit_sha@
                    &&& after.credentials() == (CredentialsView {
                        repo_key: repo_key@,
                        api_key,
                        session_key: k@,
                    })
                },
                None => false,
            },
        }
    }

    /// Registers the sidecar with Lekko under `repo_key` and `api_key`, given
    /// what the `register_client` call (made with `register_request`) and,
    /// once a session is granted, the contents fetch (made with
    /// `registration_contents_request`) answered. A failed call leaves the
    /// store as it was, so that the client can retry; the first completed
    /// registration fills the store, and every later one is refused.
    pub fn register(
        &mut self,
        repo_key: RepositoryKey,
        api_key: String,
        session_reply: Result<String, String>,
        contents_reply: Option<Result<GetRepositoryContentsResponse, Status>>,
    ) -> (r: Result<(), Status>)
        requires
            session_reply is Ok ==> contents_reply is Some,
            contents_reply matches Some(Ok(c)) ==> all_features_present(c.namespaces@),
        ensures
            Store::registers(*old(self), *final(self), repo_key, api_key@, session_reply, contents_reply, r),
    {
        let session_key = match session_reply {
            Ok(k) => k,
            Err(t) => {
                return Err(Store::registration_failed(t.as_str()));
            },
        };
        let contents = match contents_reply {
            Some(Ok(c)) => c,
            Some(Err(s)) => {
                return Err(s);
            },
            None => {
                return Err(Status::internal("no repository contents"));
            },
        };
        self.complete_registration(contents, ConnectionCredentials { repo_key, api_key, session_key })
    }

    /// The request that ends the sidecar's session with Lekko.
    pub fn deregister_request(&self) -> (r: KeyedRequest<DeregisterClientRequest>)
        ensures
            r.message.session_key@ == self.credentials().session_key,
            r.api_keys() == seq![self.credentials().api_key],
    {
        add_api_key(
            DeregisterClientRequest { session_key: self.conn_creds.session_key.clone() },
            self.conn_creds.api_key.clone(),
        )
    }

    /// The request a poll asks for the repository's latest version with.
    pub fn version_request(&self) -> (r: KeyedRequest<GetRepositoryVersionRequest>)
        ensures
            r.message.repo_key matches Some(rk) && rk@ == self.credentials().repo_key,
            r.message.session_key@ == self.credentials().session_key,
            r.api_keys() == seq![self.credentials().api_key],
    {
        repo_version_request(&self.conn_creds)
    }

    /// The request a poll fetches a new version's contents with.
    pub fn contents_request(&self) -> (r: KeyedRequest<GetRepositoryContentsRequest>)
        ensures
            r.message.repo_key matches Some(rk) && rk@ == self.credentials().repo_key,
            r.message.session_key@ == self.credentials().session_key,
            r.message.namespace_name@ == Seq::<char>::empty(),
            r.message.feature_name@ == Seq::<char>::empty(),
            r.api_keys() == seq![self.credentials().api_key],
    {
        repo_contents_request(&self.conn_creds)
    }

    /// Whether a poll that found `new_version` has to fetch the contents.
    pub fn needs_update(&self, new_version: &String) -> (b: bool)
        ensures
            b == (self.version() != new_version@),
    {
        self.contents.needs_update(new_version)
    }

    /// Replaces the contents with those of a newer version, fetched by a
    /// poll or reloaded from disk.
    pub fn apply_update(&mut self, contents: GetRepositoryContentsResponse)
        requires
            all_features_present(contents.namespaces@),
        ensures
            final(self).features() == contents_map(contents.namespaces@),
            final(self).version() == contents.commit_sha@,
            final(self).registered() == old(self).registered(),
            final(self).credentials() == old(self).credentials(),
    {
        self.contents.replace_contents(contents);
    }

    /// The feature that the request names, with the versions of the store
    /// and of the feature; `None` when the store does not hold it.
    pub fn get_feature_local(&self, request: FeatureRequestParams) -> (r: Option<FeatureData>)
        ensures
            match r {
                Some(data) => {
                    let k = (request.namespace@, request.feature@);
                    &&& self.features().contains_key(k)
                    &&& data.feature@ == self.features()[k].feature
                    &&& data.feature_sha@ == self.features()[k].version
                    &&& data.commit_sha@ == self.version()
                },
                None => !self.features().contains_key((request.namespace@, request.feature@)),
            },
    {
        self.contents.get_feature_local(request)
    }
}

/// The contents of the first of the features that has contents, if any.
pub open spec fn first_present_in(features: Seq<Feature>) -> Option<FeatureView>
    decreases features.len(),
{
    if features.len() == 0 {
        None
    } else {
        match features[0].feature {
            Some(f) => Some(f@),
            None => first_present_in(features.drop_first()),
        }
    }
}

/// The contents of the first feature with contents, over the namespaces in
/// order and the features of each in order, if any.
pub open spec fn first_present(namespaces: Seq<Namespace>) -> Option<FeatureView>
    decreases namespaces.len(),
{
    if namespaces.len() == 0 {
        None
    } else {
        match first_present_in(namespaces[0].features@) {
            Some(f) => Some(f),
            None => first_present(namespaces.drop_first()),
        }
    }
}

/// The request that fetches one feature from Lekko, under the caller's api
/// key.
pub fn feature_request(request: &FeatureRequestParams, api_key: String) -> (r: KeyedRequest<
    GetRepositoryContentsRequest,
>)
    ensures
        r.message.repo_key matches Some(rk) && rk@ == request.rk@,
        r.message.namespace_name@ == request.namespace@,
        r.message.feature_name@ == request.feature@,
        r.message.session_key@ == Seq::<char>::empty(),
        r.api_keys() == seq![api_key@],
{
    add_api_key(
        GetRepositoryContentsRequest {
            repo_key: Some(request.rk.clone()),
            session_key: String::new(),
            namespace_name: request.namespace.clone(),
            feature_name: request.feature.clone(),
        },
        api_key,
    )
}

/// The feature that Lekko sent for a request: the first one that has
/// contents; not found when none has.
pub fn first_feature(response: &GetRepositoryContentsResponse) -> (r: Result<FeatureTree, Status>)
    ensures
        match first_present(response.namespaces@) {
            Some(f) => r matches Ok(g) && g@ == f,
            None => r matches Err(e) && e@ == status(Code::NotFound, "feature not found"@),
        },
{
    let namespaces = &response.namespaces;
    let ghost all = namespaces@;
    let mut i: usize = 0;
    proof {
        assert(all.subrange(0, all.len() as int) =~= all);
    }
    while i < namespaces.len()
        invariant
            all == namespaces@,
            all == response.namespaces@,
            i <= all.len(),
            first_present(all) == first_present(all.subrange(i as int, all.len() as int)),
        decreases all.len() - i,
    {
        let features = &namespaces[i].features;
        let ghost fs = features@;
        let mut j: usize = 0;
        proof {
            assert(fs.subrange(0, fs.len() as int) =~= fs);
        }
        while j < features.len()
            invariant
                fs == features@,
                all == namespaces@,
                all == response.namespaces@,
                i < all.len(),
                fs == all[i as int].features@,
                first_present(all) == first_present(all.subrange(i as int, all.len() as int)),
                j <= fs.len(),
                first_present_in(fs) == first_present_in(fs.subrange(j as int, fs.len() as int)),
            decreases fs.len() - j,
        {
            proof {
                assert(fs.subrange(j as int, fs.len() as int).drop_first() =~= fs.subrange(
                    j + 1,
                    fs.len() as int,
                ));
            }
            match &features[j].feature {
                Some(f) => {
                    proof {
                        assert(first_present_in(fs) == Some(f@));
                        assert(all.subrange(i as int, all.len() as int)[0] == all[i as int]);
                        assert(first_present(all.subrange(i as int, all.len() as int)) == Some(f@));
                        assert(first_present(all) == Some(f@));
                    }
                    let g = f.clone();
                    assert(g@ == f@);
                    return Ok(g);
                },
                None => {},
            }
            j = j + 1;
        }
        proof {
            assert(all.subrange(i as int, all.len() as int).drop_first() =~= all.subrange(
                i + 1,
                all.len() as int,
            ));
            assert(fs.subrange(j as int, fs.len() as int) =~= Seq::<Feature>::empty());
        }
        i = i + 1;
    }
    Err(Status::not_found("feature not found"))
}

} // verus!
