//! Falling back to an on-disk clone of the config repository when Lekko
//! cannot be reached.
use vstd::prelude::*;

use crate::backend::{Feature, FeatureEntryView, GetRepositoryContentsResponse, Namespace};
use crate::repo_dir::{
    collect_namespaces, entries_features, entries_view, entry_feature, features_view, first_error_at,
    lemma_entries_error_persists, lemma_entries_step, read_entry, spec_read_entry, DirEntry,
    DirEntryView, EntryRead, EntryReadView,
};
use crate::bootstrap::{blob_sha_hash, git_blob_sha};
use crate::status::{status, Code, Status, StatusView};
use crate::text::{concat, concat3};

verus! {

/// Whether libgit2 hashes the bytes as a blob: its SHA-1 collision
/// detection does not refuse them.
pub uninterp spec fn git2_hashes(content: Seq<u8>) -> bool;

/// Some entry is a feature file whose every predecessor was read, and whose
/// bytes libgit2 refuses to hash.
pub open spec fn hash_refused_at(entries: Seq<DirEntryView>) -> bool {
    exists|i: int|
        0 <= i < entries.len() && (#[trigger] spec_read_entry(entries[i]) matches EntryReadView::Feature(
            _,
            b,
            _,
        ) && !git2_hashes(b)) && entries_features(entries.subrange(0, i), blob_sha_hash()) is Ok
}

/// `r` is what loading the namespace from the entries gives with libgit2's
/// hashing: the features the entries hold with their git blob shas, or the
/// error of the first entry that fails; or an internal error where libgit2
/// refused to hash a feature file that was reached.
pub open spec fn fallback_loaded(namespace: Seq<char>, entries: Seq<DirEntryView>, r: Result<Namespace, Status>) -> bool {
    &&& r matches Ok(ns) ==> ns.name@ == namespace && entries_features(entries, blob_sha_hash()) == Ok::<
        Seq<FeatureEntryView>,
        StatusView,
    >(features_view(ns.features@))
    &&& r matches Err(e) ==> entries_features(entries, blob_sha_hash()) == Err::<
        Seq<FeatureEntryView>,
        StatusView,
    >(e@) || (e.code == Code::Internal && hash_refused_at(entries))
    &&& !hash_refused_at(entries) && entries_features(entries, blob_sha_hash()) is Ok ==> r is Ok
}

#[verifier::external_type_specification]
#[verifier::external_body]
pub struct ExGit2Error(git2::Error);

/// Calls `git2::Oid::hash_object` with `ObjectType::Blob`, which hashes the
/// bytes as a git blob without storing it (libgit2 takes the SHA-1 of the
/// header `blob <len>\0` and the bytes), and renders the id in lower-case
/// hex. The contract claims that it succeeds exactly when libgit2's collision
/// detection accepts the bytes, a function of the bytes alone, and that the
/// id is the git blob sha of the bytes.
#[verifier::external_body]
fn git2_hash_blob(bytes: &[u8]) -> (r: Result<String, git2::Error>)
    ensures
        r is Ok <==> git2_hashes(bytes@),
        r matches Ok(s) ==> s@ == git_blob_sha(bytes@),
{
    match git2::Oid::hash_object(git2::ObjectType::Blob, bytes) {
        Ok(oid) => Ok(oid.to_string()),
        Err(e) => Err(e),
    }
}

/// Renders a libgit2 error with its `Debug` formatting. Nothing is claimed of
/// the text.
#[verifier::external_body]
fn git2_error_text(e: &git2::Error) -> String {
    format!("{:?}", e)
}

/// Loads repository contents from a local clone when fallback is enabled.
#[derive(Debug)]
pub struct Fallback {
    /// The clone's directory; fallback is disabled without one.
    repo_path: Option<String>,
    /// The path to the `.git` folder, if it is not in the clone's directory.
    git_dir_path: Option<String>,
}

impl Fallback {
    /// The clone's directory, if fallback is enabled.
    pub closed spec fn repo_path(&self) -> Option<Seq<char>> {
        match self.repo_path {
            Some(p) => Some(p@),
            None => None,
        }
    }

    /// The `.git` folder given for the clone, if one was.
    pub closed spec fn git_dir_path(&self) -> Option<Seq<char>> {
        match self.git_dir_path {
            Some(p) => Some(p@),
            None => None,
        }
    }

    /// A fallback to the clone at `repo_path`; disabled when there is none.
    pub fn new(repo_path: Option<String>, git_dir_path: Option<String>) -> (f: Fallback)
        ensures
            f.repo_path() == match repo_path {
                Some(p) => Some(p@),
                None => None::<Seq<char>>,
            },
            f.git_dir_path() == match git_dir_path {
                Some(p) => Some(p@),
                None => None::<Seq<char>>,
            },
    {
        Fallback { repo_path, git_dir_path }
    }

    /// The `.git` folder to read the clone's HEAD from: the one given, else
    /// the `.git` folder inside the clone; none when fallback is disabled.
    pub fn git_dir(&self) -> (d: Option<String>)
        ensures
            match self.repo_path() {
                None => d is None,
                Some(r) => d matches Some(g) && g@ == match self.git_dir_path() {
                    Some(given) => given,
                    None => r + "/.git"@,
                },
            },
    {
        match &self.repo_path {
            None => None,
            Some(r) => match &self.git_dir_path {
                Some(g) => Some(g.clone()),
                None => Some(concat(r.as_str(), "/.git")),
            },
        }
    }

    /// Whether fallback is enabled: whether there is a clone to fall back to.
    pub fn enabled(&self) -> (b: bool)
        ensures
            b == self.repo_path() is Some,
    {
        self.repo_path.is_some()
    }

    /// The directory that holds the serialized features of a namespace.
    pub fn namespace_proto_path(&self, namespace: &str) -> (p: String)
        requires
            self.repo_path() is Some,
        ensures
            p@ == self.repo_path()->0 + "/"@ + namespace@ + "/gen/proto"@,
    {
        match &self.repo_path {
            Some(r) => {
                let p = concat3(r.as_str(), "/", namespace);
                concat(p.as_str(), "/gen/proto")
            },
            None => String::new(),
        }
    }

    /// The contents of the repository from what was read of the clone: the
    /// commit sha of its HEAD and each requested namespace. An error when
    /// fallback is disabled, else the first error read, else the contents.
    pub fn load(
        &self,
        commit_sha: Result<String, Status>,
        namespaces: Vec<Result<Namespace, Status>>,
    ) -> (r: Result<GetRepositoryContentsResponse, Status>)
        ensures
            self.repo_path() is None ==> (r matches Err(e) && e@ == status(
                Code::InvalidArgument,
                "fallback not enabled"@,
            )),
            self.repo_path() is Some ==> match commit_sha {
                Err(e) => (r matches Err(e2) && e2@ == e@),
                Ok(sha) => match r {
                    Ok(resp) => resp.commit_sha@ == sha@ && resp.namespaces@.len()
                        == namespaces@.len() && forall|i: int|
                        0 <= i < namespaces@.len() ==> #[trigger] namespaces@[i] is Ok
                            && resp.namespaces@[i] == namespaces@[i]->Ok_0,
                    Err(e) => first_error_at(namespaces@, e@),
                },
            },
    {
        if !self.enabled() {
            return Err(Status::invalid_argument("fallback not enabled"));
        }
        let commit_sha = match commit_sha {
            Ok(s) => s,
            Err(e) => {
                return Err(e);
            },
        };
        let ns_results = match collect_namespaces(namespaces) {
            Ok(v) => v,
            Err(e) => {
                return Err(e);
            },
        };
        Ok(GetRepositoryContentsResponse { commit_sha, namespaces: ns_results })
    }

    /// The features of a namespace, from the entries of its `gen/proto`
    /// directory in order: each `<feature>.proto.bin` file gives the feature
    /// it decodes to, with the git blob sha that libgit2 computes for its
    /// bytes; other entries are skipped; the first entry that cannot be read,
    /// or whose bytes libgit2 fails to hash, fails the whole.
    pub fn load_namespace(&self, namespace: &str, entries: Vec<DirEntry>) -> (r: Result<Namespace, Status>)
        ensures
            fallback_loaded(namespace@, entries_view(entries@), r),
    {
        let ghost hash = blob_sha_hash();
        let ghost all = entries_view(entries@);
        let mut features: Vec<Feature> = Vec::new();
        let mut rest = entries;
        let n = rest.len();
        let mut i: usize = 0;
        proof {
            assert(all.subrange(0, 0) =~= Seq::<DirEntryView>::empty());
            assert(features_view(features@) =~= Seq::<FeatureEntryView>::empty());
            assert(all.subrange(0, n as int) =~= all);
        }
        while i < n
            invariant
                n == all.len(),
                all == entries_view(entries@),
                hash == blob_sha_hash(),
                i <= n,
                rest@.len() == n - i,
                entries_view(rest@) == all.subrange(i as int, n as int),
                entries_features(all.subrange(0, i as int), hash) == Ok::<
                    Seq<FeatureEntryView>,
                    StatusView,
                >(features_view(features@)),
            decreases n - i,
        {
            proof {
                lemma_entries_step(all, i as int, hash);
            }
            let ghost before = rest@;
            let entry = rest.remove(0);
            proof {
                assert(rest@ =~= before.subrange(1, before.len() as int));
                assert(entries_view(rest@) =~= all.subrange(i + 1, n as int)) by {
                    assert forall|k: int| 0 <= k < rest@.len() implies entries_view(rest@)[k] == all[i + 1 + k] by {
                        assert(entries_view(before)[k + 1] == all.subrange(i as int, n as int)[k + 1]);
                    }
                }
                assert(entry@ == entries_view(before)[0]);
                assert(entry@ == all[i as int]);
            }
            let read = read_entry(entry);
            match read {
                EntryRead::Failed(e) => {
                    proof {
                        assert(entries_features(all.subrange(0, i + 1), hash) == Err::<
                            Seq<FeatureEntryView>,
                            StatusView,
                        >(e@));
                        lemma_entries_error_persists(all, i + 1, hash);
                    }
                    return Err(e);
                },
                EntryRead::Skipped => {
                    assert(entry_feature(all[i as int], hash) == Ok::<Option<FeatureEntryView>, StatusView>(
                        None,
                    ));
                },
                EntryRead::Feature(name, bytes, decoded) => {
                    let sha = match self.git_hash_object(bytes.as_slice()) {
                        Ok(sha) => sha,
                        Err(e) => {
                            assert(hash_refused_at(all)) by {
                                assert(spec_read_entry(all[i as int]) matches EntryReadView::Feature(_, b, _)
                                    && !git2_hashes(b));
                            }
                            return Err(e);
                        },
                    };
                    let d = match decoded {
                        Ok(d) => d,
                        Err(e) => {
                            proof {
                                assert(entries_features(all.subrange(0, i + 1), hash) == Err::<
                                    Seq<FeatureEntryView>,
                                    StatusView,
                                >(e@));
                                lemma_entries_error_persists(all, i + 1, hash);
                            }
                            return Err(e);
                        },
                    };
                    let ghost added = FeatureEntryView { name: name@, sha: sha@, feature: Some(d@) };
                    assert(sha@ == hash(bytes@));
                    assert(entry_feature(all[i as int], hash) == Ok::<Option<FeatureEntryView>, StatusView>(
                        Some(added),
                    ));
                    let ghost old_features = features@;
                    features.push(Feature { name, sha, feature: Some(d) });
                    proof {
                        assert(features_view(features@) =~= features_view(old_features).push(added));
                    }
                },
            }
            i = i + 1;
        }
        Ok(Namespace { name: String::from_str(namespace), features })
    }

    /// The git sha of a blob with the given contents, as libgit2 computes it;
    /// an internal error when libgit2 refuses the bytes.
    pub fn git_hash_object(&self, bytes: &[u8]) -> (r: Result<String, Status>)
        ensures
            r is Ok <==> git2_hashes(bytes@),
            r matches Ok(s) ==> s@ == git_blob_sha(bytes@),
            r matches Err(e) ==> e.code == Code::Internal,
    {
        match git2_hash_blob(bytes) {
            Ok(s) => Ok(s),
            Err(e) => {
                let text = git2_error_text(&e);
                Err(Status { code: Code::Internal, message: concat("failed to hash object: ", text.as_str()) })
            },
        }
    }
}

} // verus!
