//! Messages exchanged with the distribution service of the Lekko backend.
use vstd::prelude::*;

use crate::evaluator::{Feature as FeatureTree, FeatureView};
use crate::types::RepositoryKey;

verus! {

/// A feature as the backend distributes it: its name, the git blob sha of its
/// serialized form, and its contents.
#[derive(Debug)]
pub struct Feature {
    pub name: String,
    pub sha: String,
    pub feature: Option<FeatureTree>,
}

/// A namespace of a config repository and the features in it.
#[derive(Debug)]
pub struct Namespace {
    pub name: String,
    pub features: Vec<Feature>,
}

/// The contents of a config repository at a commit.
#[derive(Debug)]
pub struct GetRepositoryContentsResponse {
    pub commit_sha: String,
    pub namespaces: Vec<Namespace>,
}

/// A request for the contents of a repository, or of one namespace or feature of it.
#[derive(Debug)]
pub struct GetRepositoryContentsRequest {
    pub repo_key: Option<RepositoryKey>,
    pub session_key: String,
    pub namespace_name: String,
    pub feature_name: String,
}

/// The request that registers a client of a repository with Lekko.
#[derive(Debug)]
pub struct RegisterClientRequest {
    pub repo_key: Option<RepositoryKey>,
    pub namespace_list: Vec<String>,
    pub initial_bootstrap_sha: String,
    pub sidecar_version: String,
}

/// The request that ends a client's session with Lekko.
#[derive(Debug)]
pub struct DeregisterClientRequest {
    pub session_key: String,
}

/// A request for the version of a repository.
#[derive(Debug)]
pub struct GetRepositoryVersionRequest {
    pub repo_key: Option<RepositoryKey>,
    pub session_key: String,
}

pub struct FeatureEntryView {
    pub name: Seq<char>,
    pub sha: Seq<char>,
    pub feature: Option<FeatureView>,
}

impl View for Feature {
    type V = FeatureEntryView;

    open spec fn view(&self) -> FeatureEntryView {
        FeatureEntryView {
            name: self.name@,
            sha: self.sha@,
            feature: match self.feature {
                Some(f) => Some(f@),
                None => None,
            },
        }
    }
}

} // verus!
