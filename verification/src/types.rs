//! Types shared by the services of the sidecar.
use vstd::prelude::*;
use vstd::string::{StrSliceExecFns, StringExecFns};

use crate::text::{chars_of, concat, concat3, debug_str, debug_text};
use crate::status::{result_view, status, Code, Status, StatusView};
use crate::value::Any;
use crate::value::strings_view;

verus! {

/// Identifies a config repository: its owner and its name.
#[derive(Debug)]
pub struct RepositoryKey {
    pub owner_name: String,
    pub repo_name: String,
}

pub struct RepositoryKeyView {
    pub owner_name: Seq<char>,
    pub repo_name: Seq<char>,
}

impl View for RepositoryKey {
    type V = RepositoryKeyView;

    open spec fn view(&self) -> RepositoryKeyView {
        RepositoryKeyView { owner_name: self.owner_name@, repo_name: self.repo_name@ }
    }
}

impl Clone for RepositoryKey {
    fn clone(&self) -> (r: Self)
        ensures
            r@ == self@,
    {
        RepositoryKey { owner_name: self.owner_name.clone(), repo_name: self.repo_name.clone() }
    }
}

/// All parameters needed to fetch a feature.
#[derive(Debug)]
pub struct FeatureRequestParams {
    pub rk: RepositoryKey,
    pub namespace: String,
    pub feature: String,
}

impl Clone for FeatureRequestParams {
    fn clone(&self) -> (r: Self)
        ensures
            r.rk@ == self.rk@,
            r.namespace@ == self.namespace@,
            r.feature@ == self.feature@,
    {
        FeatureRequestParams {
            rk: self.rk.clone(),
            namespace: self.namespace.clone(),
            feature: self.feature.clone(),
        }
    }
}


/// The key that the Lekko api key is stored under in rpc headers.
pub const APIKEY: &'static str = "apikey";

/// What prost decodes the bytes to as a `bool` message (the wrapper of
/// `google.protobuf.BoolValue`), or the text of its decode error.
pub uninterp spec fn prost_bool(bytes: Seq<u8>) -> Result<bool, Seq<char>>;

/// What prost decodes the bytes to as an `i64` message (the wrapper of
/// `google.protobuf.Int64Value`), or the text of its decode error.
pub uninterp spec fn prost_int(bytes: Seq<u8>) -> Result<i64, Seq<char>>;

/// What prost decodes the bytes to as a `String` message (the wrapper of
/// `google.protobuf.StringValue`), or the text of its decode error.
pub uninterp spec fn prost_string(bytes: Seq<u8>) -> Result<Seq<char>, Seq<char>>;

/// Calls `prost::Message::decode` for `bool`. The contract claims only that
/// the result, or the error's `to_string`, is what that decoding gives for the
/// bytes, a function of the bytes alone.
#[verifier::external_body]
fn decode_bool(bytes: &[u8]) -> (r: Result<bool, String>)
    ensures
        match r {
            Ok(b) => prost_bool(bytes@) == Ok::<bool, Seq<char>>(b),
            Err(t) => prost_bool(bytes@) == Err::<bool, Seq<char>>(t@),
        },
{
    match <bool as prost::Message>::decode(bytes) {
        Ok(b) => Ok(b),
        Err(e) => Err(e.to_string()),
    }
}

/// Calls `prost::Message::decode` for `i64`; as for `decode_bool`.
#[verifier::external_body]
fn decode_int(bytes: &[u8]) -> (r: Result<i64, String>)
    ensures
        match r {
            Ok(i) => prost_int(bytes@) == Ok::<i64, Seq<char>>(i),
            Err(t) => prost_int(bytes@) == Err::<i64, Seq<char>>(t@),
        },
{
    match <i64 as prost::Message>::decode(bytes) {
        Ok(i) => Ok(i),
        Err(e) => Err(e.to_string()),
    }
}

/// Calls `prost::Message::decode` for `String`; as for `decode_bool`.
#[verifier::external_body]
fn decode_string(bytes: &[u8]) -> (r: Result<String, String>)
    ensures
        match r {
            Ok(s) => prost_string(bytes@) == Ok::<Seq<char>, Seq<char>>(s@),
            Err(t) => prost_string(bytes@) == Err::<Seq<char>, Seq<char>>(t@),
        },
{
    match <String as prost::Message>::decode(bytes) {
        Ok(s) => Ok(s),
        Err(e) => Err(e.to_string()),
    }
}

/// A decode error as the status a client gets.
pub open spec fn decode_failure<T>(r: Result<T, Seq<char>>) -> Result<T, StatusView> {
    match r {
        Ok(v) => Ok(v),
        Err(t) => Err(status(Code::Internal, t)),
    }
}

/// The `bool` that an `Any` holds; an internal error when it holds none.
pub fn bool_from_any(message: &Any) -> (r: Result<bool, Status>)
    ensures
        result_view(r) == decode_failure(prost_bool(message.value@)),
{
    match decode_bool(message.value.as_slice()) {
        Ok(b) => Ok(b),
        Err(t) => Err(Status { code: Code::Internal, message: t }),
    }
}

/// The `i64` that an `Any` holds; an internal error when it holds none.
pub fn int_from_any(message: &Any) -> (r: Result<i64, Status>)
    ensures
        result_view(r) == decode_failure(prost_int(message.value@)),
{
    match decode_int(message.value.as_slice()) {
        Ok(i) => Ok(i),
        Err(t) => Err(Status { code: Code::Internal, message: t }),
    }
}

/// The string that an `Any` holds; an internal error when it holds none.
pub fn string_from_any(message: &Any) -> (r: Result<String, Status>)
    ensures
        match r {
            Ok(s) => prost_string(message.value@) == Ok::<Seq<char>, Seq<char>>(s@),
            Err(e) => prost_string(message.value@) matches Err(t) && e@ == status(Code::Internal, t),
        },
{
    match decode_string(message.value.as_slice()) {
        Ok(s) => Ok(s),
        Err(t) => Err(Status { code: Code::Internal, message: t }),
    }
}

/// The `Debug` text of a repository key:
/// `RepositoryKey { owner_name: "…", repo_name: "…" }`, each name as the
/// `Debug` text of a string.
pub open spec fn repo_key_debug(rk: RepositoryKeyView) -> Seq<char> {
    "RepositoryKey { owner_name: "@ + debug_str(rk.owner_name) + ", repo_name: "@ + debug_str(
        rk.repo_name,
    ) + " }"@
}

/// The `Debug` text of a repository key.
fn debug_repo_key(rk: &RepositoryKey) -> (t: String)
    ensures
        t@ == repo_key_debug(rk@),
{
    let owner = debug_text(rk.owner_name.as_str());
    let repo = debug_text(rk.repo_name.as_str());
    let head = concat3("RepositoryKey { owner_name: ", owner.as_str(), ", repo_name: ");
    concat3(head.as_str(), repo.as_str(), " }")
}

/// The message of the error for a request that names a repository other
/// than the one served.
pub open spec fn mismatch_message(requested: RepositoryKeyView, served: RepositoryKeyView) -> Seq<char> {
    "registration mismatch: requested_repo: "@ + repo_key_debug(requested) + ", vs. repo: "@
        + repo_key_debug(served)
}

/// Whether two repository keys name the same repository.
pub open spec fn same_repo(a: RepositoryKeyView, b: RepositoryKeyView) -> bool {
    a.owner_name == b.owner_name && a.repo_name == b.repo_name
}

/// Checks that a request names the repository this sidecar serves: an
/// invalid-argument error when it names none or another one.
pub fn check_repo_key(repo_key: &RepositoryKey, requested: Option<&RepositoryKey>) -> (r: Result<(), Status>)
    ensures
        match requested {
            None => r matches Err(e) && e@ == status(Code::InvalidArgument, "no repo key provided"@),
            Some(rk) => if same_repo(rk@, repo_key@) {
                r is Ok
            } else {
                r matches Err(e) && e@ == status(Code::InvalidArgument, mismatch_message(rk@, repo_key@))
            },
        },
{
    let requested_rk = match requested {
        Some(rk) => rk,
        None => {
            return Err(Status::invalid_argument("no repo key provided"));
        },
    };
    if !(repo_key.owner_name == requested_rk.owner_name) || !(repo_key.repo_name
        == requested_rk.repo_name) {
        let requested_text = debug_repo_key(requested_rk);
        let own_text = debug_repo_key(repo_key);
        let first = concat3("registration mismatch: requested_repo: ", requested_text.as_str(), ", vs. repo: ");
        let message = concat(first.as_str(), own_text.as_str());
        return Err(Status { code: Code::InvalidArgument, message });
    }
    Ok(())
}

/// A repository key as the public client API spells it.
#[derive(Debug)]
pub struct PublicRepositoryKey {
    pub owner_name: String,
    pub repo_name: String,
}

/// Copies a repository key from the public message into the private one.
pub fn convert_repo_key(rk: &PublicRepositoryKey) -> (r: RepositoryKey)
    ensures
        r.owner_name@ == rk.owner_name@,
        r.repo_name@ == rk.repo_name@,
{
    RepositoryKey { owner_name: rk.owner_name.clone(), repo_name: rk.repo_name.clone() }
}

/// The running mode of the sidecar. `Default` waits for a register call,
/// bootstraps, and evaluates locally while polling for updates; `Static`
/// evaluates against the repository on disk and never connects to Lekko.
#[derive(Clone, Copy, Debug, PartialEq, Eq, Structural)]
pub enum Mode {
    Default,
    Static,
}

/// What the sidecar needs to talk to Lekko on behalf of a repository.
#[derive(Debug)]
pub struct ConnectionCredentials {
    pub repo_key: RepositoryKey,
    pub api_key: String,
    pub session_key: String,
}

/// The credentials a sidecar continues with after registering with Lekko:
/// the session Lekko granted, or, when registration failed, no session, so
/// that the sidecar keeps serving its bootstrap and keeps trying to reach
/// Lekko.
pub fn connection_credentials(
    registration: Result<String, Status>,
    repo_key: RepositoryKey,
    api_key: String,
) -> (cc: ConnectionCredentials)
    ensures
        cc.repo_key@ == repo_key@,
        cc.api_key@ == api_key@,
        cc.session_key@ == match registration {
            Ok(s) => s@,
            Err(_) => Seq::<char>::empty(),
        },
{
    let session_key = match registration {
        Ok(s) => s,
        Err(_) => String::new(),
    };
    ConnectionCredentials { repo_key, api_key, session_key }
}

/// A request message with the api keys of its headers, in the order they
/// were appended; the first is the one a server reads.
#[derive(Debug)]
pub struct KeyedRequest<T> {
    pub message: T,
    pub api_keys: Vec<String>,
}

impl<T> KeyedRequest<T> {
    /// The api keys of the request's headers, in order.
    pub open spec fn api_keys(&self) -> Seq<Seq<char>> {
        strings_view(self.api_keys@)
    }

    /// A request with no api key.
    pub fn new(message: T) -> (r: KeyedRequest<T>)
        ensures
            r.message == message,
            r.api_keys() == Seq::<Seq<char>>::empty(),
    {
        let r = KeyedRequest { message, api_keys: Vec::new() };
        assert(r.api_keys() =~= Seq::<Seq<char>>::empty());
        r
    }

    /// Appends an api key to the request's headers.
    pub fn append_api_key(&mut self, api_key: String)
        ensures
            final(self).message == old(self).message,
            final(self).api_keys() == old(self).api_keys().push(api_key@),
    {
        self.api_keys.push(api_key);
        assert(strings_view(self.api_keys@) =~= old(self).api_keys().push(api_key@));
    }

    /// The api key a server reads from the request: the first one, if any.
    pub fn api_key(&self) -> (k: Option<String>)
        ensures
            match k {
                Some(k) => self.api_keys().len() > 0 && k@ == self.api_keys()[0],
                None => self.api_keys().len() == 0,
            },
    {
        if self.api_keys.len() == 0 {
            None
        } else {
            Some(self.api_keys[0].clone())
        }
    }
}

/// A request for `m` that carries `api_key`.
pub fn add_api_key<T>(m: T, api_key: String) -> (r: KeyedRequest<T>)
    ensures
        r.message == m,
        r.api_keys() == seq![api_key@],
{
    let mut r = KeyedRequest::new(m);
    r.append_api_key(api_key);
    assert(r.api_keys() =~= seq![api_key@]);
    r
}

/// A request that may carry an api key gets that of the sidecar's
/// credentials, but only when it carries none and there are credentials.
pub fn override_api_key<T>(r: KeyedRequest<T>, conn_creds_opt: &Option<ConnectionCredentials>) -> (o:
    KeyedRequest<T>)
    ensures
        o.message == r.message,
        o.api_keys() == match conn_creds_opt {
            Some(cc) => if r.api_keys().len() == 0 {
                seq![cc.api_key@]
            } else {
                r.api_keys()
            },
            None => r.api_keys(),
        },
{
    let mut r = r;
    if r.api_keys.len() == 0 {
        match conn_creds_opt {
            Some(cc) => {
                r.append_api_key(cc.api_key.clone());
                assert(r.api_keys() =~= seq![cc.api_key@]);
            },
            None => {},
        }
    }
    r
}

/// The characters of the suffix `.git`.
pub open spec fn git_suffix() -> Seq<char> {
    seq!['.', 'g', 'i', 't']
}

/// `s` with every trailing `.git` removed.
pub open spec fn trim_git_suffix(s: Seq<char>) -> Seq<char>
    decreases s.len(),
{
    if s.len() >= 4 && s.subrange(s.len() - 4, s.len() as int) == git_suffix() {
        trim_git_suffix(s.subrange(0, s.len() - 4))
    } else {
        s
    }
}

/// The position of the last `c` in `s`, or -1.
pub open spec fn last_index_of(s: Seq<char>, c: char) -> int
    decreases s.len(),
{
    if s.len() == 0 {
        -1
    } else if s.last() == c {
        s.len() - 1
    } else {
        last_index_of(s.drop_last(), c)
    }
}

/// The text after the last `c` in `s` (all of `s` when it has none).
pub open spec fn after_last(s: Seq<char>, c: char) -> Seq<char> {
    s.subrange(last_index_of(s, c) + 1, s.len() as int)
}

/// The owner and repository named by a git remote url, http or ssh, with or
/// without a `.git` suffix: the repository is the last path segment, the owner
/// the segment before it (after any `:`). A url without `/` names none.
pub open spec fn spec_owner_and_repo(path: Seq<char>) -> Option<(Seq<char>, Seq<char>)> {
    let t = trim_git_suffix(path);
    let l = last_index_of(t, '/');
    if l < 0 {
        None
    } else {
        let before = t.subrange(0, l);
        Some((after_last(after_last(before, '/'), ':'), t.subrange(l + 1, t.len() as int)))
    }
}

pub proof fn lemma_last_index_of(s: Seq<char>, c: char)
    ensures
        -1 <= last_index_of(s, c) < s.len(),
        last_index_of(s, c) >= 0 ==> s[last_index_of(s, c)] == c,
        forall|i: int| last_index_of(s, c) < i < s.len() ==> s[i] != c,
    decreases s.len(),
{
    if s.len() > 0 && s.last() != c {
        lemma_last_index_of(s.drop_last(), c);
        assert forall|i: int| last_index_of(s, c) < i < s.len() implies s[i] != c by {
            if i < s.len() - 1 {
                assert(s.drop_last()[i] == s[i]);
            }
        }
    }
}

proof fn lemma_last_index_of_char(s: Seq<char>, c: char, k: int)
    requires
        -1 <= k < s.len(),
        k >= 0 ==> s[k] == c,
        forall|i: int| k < i < s.len() ==> s[i] != c,
    ensures
        last_index_of(s, c) == k,
    decreases s.len(),
{
    if s.len() > 0 && k < s.len() - 1 {
        lemma_last_index_of_char(s.drop_last(), c, k);
    }
}

/// The position of the last `c` among the first `end` characters of `s`, or -1.
pub(crate) fn last_index(s: &Vec<char>, end: usize, c: char) -> (r: Option<usize>)
    requires
        end <= s@.len(),
    ensures
        match r {
            Some(i) => i < end && i == last_index_of(s@.subrange(0, end as int), c),
            None => last_index_of(s@.subrange(0, end as int), c) == -1,
        },
{
    let mut i: usize = end;
    while i > 0
        invariant
            i <= end <= s@.len(),
            forall|j: int| i <= j < end ==> s@[j] != c,
        decreases i,
    {
        if s[i - 1] == c {
            proof {
                lemma_last_index_of_char(s@.subrange(0, end as int), c, i - 1);
            }
            return Some(i - 1);
        }
        i = i - 1;
    }
    proof {
        lemma_last_index_of_char(s@.subrange(0, end as int), c, -1);
    }
    None
}

/// The length of `chars` with every trailing `.git` removed.
fn trimmed_len(chars: &Vec<char>) -> (end: usize)
    ensures
        end <= chars@.len(),
        chars@.subrange(0, end as int) == trim_git_suffix(chars@),
{
    let mut end: usize = chars.len();
    assert(chars@.subrange(0, end as int) =~= chars@);
    while end >= 4 && chars[end - 4] == '.' && chars[end - 3] == 'g' && chars[end - 2] == 'i'
        && chars[end - 1] == 't'
        invariant
            end <= chars@.len(),
            trim_git_suffix(chars@) == trim_git_suffix(chars@.subrange(0, end as int)),
        decreases end,
    {
        let ghost t = chars@.subrange(0, end as int);
        assert(t.subrange(t.len() - 4, t.len() as int) =~= git_suffix());
        assert(t.subrange(0, t.len() - 4) =~= chars@.subrange(0, end - 4));
        end = end - 4;
    }
    let ghost t = chars@.subrange(0, end as int);
    assert(trim_git_suffix(t) == t) by {
        if t.len() >= 4 {
            if t.subrange(t.len() - 4, t.len() as int) == git_suffix() {
                assert(t[t.len() - 4] == t.subrange(t.len() - 4, t.len() as int)[0]);
                assert(t[t.len() - 3] == t.subrange(t.len() - 4, t.len() as int)[1]);
                assert(t[t.len() - 2] == t.subrange(t.len() - 4, t.len() as int)[2]);
                assert(t[t.len() - 1] == t.subrange(t.len() - 4, t.len() as int)[3]);
            }
        }
    }
    end
}

/// The start of what follows the last `:` among `chars[start..end]` (`start`
/// when there is none).
fn after_last_colon(chars: &Vec<char>, start: usize, end: usize) -> (k: usize)
    requires
        start <= end <= chars@.len(),
    ensures
        start <= k <= end,
        after_last(chars@.subrange(start as int, end as int), ':') == chars@.subrange(
            k as int,
            end as int,
        ),
{
    let mut k: usize = end;
    while k > start && chars[k - 1] != ':'
        invariant
            start <= k <= end <= chars@.len(),
            forall|j: int| k <= j < end ==> chars@[j] != ':',
        decreases k,
    {
        k = k - 1;
    }
    let ghost seg = chars@.subrange(start as int, end as int);
    proof {
        let kk: int = if k > start {
            k - 1 - start
        } else {
            -1
        };
        lemma_last_index_of_char(seg, ':', kk);
        assert(after_last(seg, ':') =~= chars@.subrange(k as int, end as int));
    }
    k
}

/// The owner and repository named by a git remote url (see `spec_owner_and_repo`).
pub fn get_owner_and_repo(path: &str) -> (r: Option<(String, String)>)
    ensures
        match spec_owner_and_repo(path@) {
            None => r is None,
            Some((owner, repo)) => r matches Some((o, rp)) && o@ == owner && rp@ == repo,
        },
{
    let chars = chars_of(path);
    let end = trimmed_len(&chars);
    let ghost t = chars@.subrange(0, end as int);
    let l = match last_index(&chars, end, '/') {
        Some(l) => l,
        None => {
            return None;
        },
    };
    let repo_name = String::from_str(path.substring_char(l + 1, end));
    assert(t.subrange(l + 1, t.len() as int) =~= chars@.subrange(l + 1, end as int));
    // The segment before the last `/`, after any earlier `/`.
    let seg_start: usize = match last_index(&chars, l, '/') {
        Some(p) => p + 1,
        None => 0,
    };
    let ghost before = t.subrange(0, l as int);
    assert(before =~= chars@.subrange(0, l as int));
    assert(after_last(before, '/') =~= chars@.subrange(seg_start as int, l as int));
    // The owner is what follows the last `:` of that segment.
    let k = after_last_colon(&chars, seg_start, l);
    let owner_name = String::from_str(path.substring_char(k, l));
    Some((owner_name, repo_name))
}

} // verus!
