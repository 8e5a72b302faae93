//! Reading the features of a namespace from the `gen/proto` directory of a
//! config repository on disk: each regular file named `<feature>.proto.bin`
//! holds one serialized feature.
use vstd::prelude::*;

use crate::backend::{Feature, FeatureEntryView, Namespace};
use crate::bootstrap::{feature_name, proto_bin_suffix};
use crate::evaluator::{Feature as FeatureTree, FeatureView};
use crate::status::{status, Code, Status, StatusView};
use crate::text::{concat, is_suffix};

verus! {

/// A regular file of the directory, as read from disk.
#[derive(Debug)]
pub struct FileEntry {
    /// The file name, or `None` when it is not valid unicode.
    pub name: Option<String>,
    /// The bytes of the file, or what went wrong reading them.
    pub contents: Result<Vec<u8>, String>,
    /// The feature that the bytes decode to, or what went wrong decoding them.
    pub decoded: Result<FeatureTree, String>,
}

/// An entry of the directory, as listed from disk.
#[derive(Debug)]
pub enum DirEntry {
    /// The listing failed at this entry, for the given reason.
    ListError(String),
    /// The entry's file type could not be read, for the given reason.
    FileTypeError(String),
    /// The entry is not a regular file.
    NotAFile,
    File(FileEntry),
}

pub struct FileEntryView {
    pub name: Option<Seq<char>>,
    pub contents: Result<Seq<u8>, Seq<char>>,
    pub decoded: Result<FeatureView, Seq<char>>,
}

pub enum DirEntryView {
    ListError(Seq<char>),
    FileTypeError(Seq<char>),
    NotAFile,
    File(FileEntryView),
}

impl View for DirEntry {
    type V = DirEntryView;

    open spec fn view(&self) -> DirEntryView {
        match self {
            DirEntry::ListError(t) => DirEntryView::ListError(t@),
            DirEntry::FileTypeError(t) => DirEntryView::FileTypeError(t@),
            DirEntry::NotAFile => DirEntryView::NotAFile,
            DirEntry::File(f) => DirEntryView::File(
                FileEntryView {
                    name: match f.name {
                        Some(n) => Some(n@),
                        None => None,
                    },
                    contents: match f.contents {
                        Ok(b) => Ok(b@),
                        Err(t) => Err(t@),
                    },
                    decoded: match f.decoded {
                        Ok(d) => Ok(d@),
                        Err(t) => Err(t@),
                    },
                },
            ),
        }
    }
}

/// What reading one entry gives, before any hashing: an error, nothing (the
/// entry is skipped), or a feature file with its feature name, its bytes, and
/// the feature they decode to or the error of decoding them. A feature file
/// is hashed before its decoding is looked at.
pub enum EntryReadView {
    Failed(StatusView),
    Skipped,
    Feature(Seq<char>, Seq<u8>, Result<FeatureView, StatusView>),
}

pub open spec fn spec_read_entry(e: DirEntryView) -> EntryReadView {
    match e {
        DirEntryView::ListError(t) => EntryReadView::Failed(
            status(Code::InvalidArgument, "failed to read dir content: "@ + t),
        ),
        DirEntryView::FileTypeError(t) => EntryReadView::Failed(
            status(Code::InvalidArgument, "failed to get file type "@ + t),
        ),
        DirEntryView::NotAFile => EntryReadView::Skipped,
        DirEntryView::File(f) => match f.contents {
            Err(t) => EntryReadView::Failed(status(Code::Internal, "failed to read path: "@ + t)),
            Ok(bytes) => match f.name {
                None => EntryReadView::Failed(status(Code::Internal, "file name empty"@)),
                Some(n) => if !is_suffix(proto_bin_suffix(), n) {
                    EntryReadView::Skipped
                } else {
                    EntryReadView::Feature(
                        n.subrange(0, n.len() - proto_bin_suffix().len()),
                        bytes,
                        match f.decoded {
                            Err(t) => Err(status(Code::Internal, "decode feature from git-sync: "@ + t)),
                            Ok(d) => Ok(d),
                        },
                    )
                },
            },
        },
    }
}

/// What one entry adds to the namespace: an error, nothing, or a feature
/// whose sha is `hash` of the file's bytes.
pub open spec fn entry_feature(e: DirEntryView, hash: spec_fn(Seq<u8>) -> Seq<char>) -> Result<
    Option<FeatureEntryView>,
    StatusView,
> {
    match spec_read_entry(e) {
        EntryReadView::Failed(s) => Err(s),
        EntryReadView::Skipped => Ok(None),
        EntryReadView::Feature(name, bytes, decoded) => match decoded {
            Err(s) => Err(s),
            Ok(d) => Ok(Some(FeatureEntryView { name, sha: hash(bytes), feature: Some(d) })),
        },
    }
}

/// The features that the entries hold, in order, or the error of the first
/// entry that fails.
pub open spec fn entries_features(entries: Seq<DirEntryView>, hash: spec_fn(Seq<u8>) -> Seq<char>) -> Result<
    Seq<FeatureEntryView>,
    StatusView,
>
    decreases entries.len(),
{
    if entries.len() == 0 {
        Ok(Seq::empty())
    } else {
        match entries_features(entries.drop_last(), hash) {
            Err(e) => Err(e),
            Ok(fs) => match entry_feature(entries.last(), hash) {
                Err(e) => Err(e),
                Ok(None) => Ok(fs),
                Ok(Some(f)) => Ok(fs.push(f)),
            },
        }
    }
}

/// Reading one more entry: the features of a longer prefix come from those
/// of the shorter one and what the next entry adds.
pub proof fn lemma_entries_step(entries: Seq<DirEntryView>, i: int, hash: spec_fn(Seq<u8>) -> Seq<char>)
    requires
        0 <= i < entries.len(),
    ensures
        entries_features(entries.subrange(0, i + 1), hash) == match entries_features(
            entries.subrange(0, i),
            hash,
        ) {
            Err(e) => Err(e),
            Ok(fs) => match entry_feature(entries[i], hash) {
                Err(e) => Err(e),
                Ok(None) => Ok(fs),
                Ok(Some(f)) => Ok(fs.push(f)),
            },
        },
{
    assert(entries.subrange(0, i + 1).drop_last() =~= entries.subrange(0, i));
}

/// Once a prefix of the entries fails, all of them fail with the same error.
pub proof fn lemma_entries_error_persists(
    entries: Seq<DirEntryView>,
    i: int,
    hash: spec_fn(Seq<u8>) -> Seq<char>,
)
    requires
        0 <= i <= entries.len(),
        entries_features(entries.subrange(0, i), hash) is Err,
    ensures
        entries_features(entries, hash) == entries_features(entries.subrange(0, i), hash),
    decreases entries.len() - i,
{
    if i < entries.len() {
        lemma_entries_step(entries, i, hash);
        lemma_entries_error_persists(entries, i + 1, hash);
    } else {
        assert(entries.subrange(0, i) =~= entries);
    }
}

pub open spec fn entries_view(entries: Seq<DirEntry>) -> Seq<DirEntryView> {
    entries.map_values(|e: DirEntry| e@)
}

pub open spec fn features_view(features: Seq<Feature>) -> Seq<FeatureEntryView> {
    features.map_values(|f: Feature| f@)
}

/// What reading one entry found: a feature file whose bytes still need
/// hashing, or what the entry contributes without a hash.
pub enum EntryRead {
    Failed(Status),
    Skipped,
    Feature(String, Vec<u8>, Result<FeatureTree, Status>),
}

impl View for EntryRead {
    type V = EntryReadView;

    open spec fn view(&self) -> EntryReadView {
        match self {
            EntryRead::Failed(s) => EntryReadView::Failed(s@),
            EntryRead::Skipped => EntryReadView::Skipped,
            EntryRead::Feature(n, b, d) => EntryReadView::Feature(
                n@,
                b@,
                match d {
                    Ok(f) => Ok(f@),
                    Err(e) => Err(e@),
                },
            ),
        }
    }
}

/// Reads one entry of the directory, all but hashing it.
pub fn read_entry(e: DirEntry) -> (r: EntryRead)
    ensures
        r@ == spec_read_entry(e@),
{
    match e {
        DirEntry::ListError(t) => EntryRead::Failed(
            Status { code: Code::InvalidArgument, message: concat("failed to read dir content: ", t.as_str()) },
        ),
        DirEntry::FileTypeError(t) => EntryRead::Failed(
            Status { code: Code::InvalidArgument, message: concat("failed to get file type ", t.as_str()) },
        ),
        DirEntry::NotAFile => EntryRead::Skipped,
        DirEntry::File(f) => {
            let FileEntry { name, contents, decoded } = f;
            match contents {
                Err(t) => EntryRead::Failed(
                    Status { code: Code::Internal, message: concat("failed to read path: ", t.as_str()) },
                ),
                Ok(bytes) => match name {
                    None => EntryRead::Failed(Status::internal("file name empty")),
                    Some(n) => match feature_name(n.as_str()) {
                        None => EntryRead::Skipped,
                        Some(feature) => {
                            proof {
                                assert(n@.subrange(0, n@.len() - proto_bin_suffix().len()) =~= feature@);
                                assert(n@.subrange(
                                    n@.len() - proto_bin_suffix().len(),
                                    n@.len() as int,
                                ) =~= proto_bin_suffix());
                            }
                            let decoded = match decoded {
                                Err(t) => Err(
                                    Status {
                                        code: Code::Internal,
                                        message: concat("decode feature from git-sync: ", t.as_str()),
                                    },
                                ),
                                Ok(d) => Ok(d),
                            };
                            EntryRead::Feature(feature, bytes, decoded)
                        },
                    },
                },
            }
        },
    }
}

/// The first error among the namespaces read is `e`: every namespace before
/// it was read.
pub open spec fn first_error_at(namespaces: Seq<Result<Namespace, Status>>, e: StatusView) -> bool {
    exists|i: int|
        0 <= i < namespaces.len() && (#[trigger] namespaces[i] matches Err(e2) && e2@ == e)
            && forall|j: int| 0 <= j < i ==> namespaces[j] is Ok
}

/// Every namespace in order, or the first error among them.
pub fn collect_namespaces(namespaces: Vec<Result<Namespace, Status>>) -> (r: Result<Vec<Namespace>, Status>)
    ensures
        match r {
            Ok(v) => v@.len() == namespaces@.len() && forall|i: int|
                0 <= i < namespaces@.len() ==> #[trigger] namespaces@[i] is Ok && v@[i]
                    == namespaces@[i]->Ok_0,
            Err(e) => first_error_at(namespaces@, e@),
        },
{
    let mut ns_results: Vec<Namespace> = Vec::new();
    let ghost given = namespaces@;
    let mut rest = namespaces;
    let n = rest.len();
    let mut i: usize = 0;
    while i < n
        invariant
            n == given.len(),
            given == namespaces@,
            i <= n,
            rest@ == given.subrange(i as int, n as int),
            ns_results@.len() == i,
            forall|j: int|
                0 <= j < i ==> #[trigger] given[j] is Ok && ns_results@[j] == given[j]->Ok_0,
        decreases n - i,
    {
        assert(rest@[0] == given[i as int]);
        match rest.remove(0) {
            Ok(ns) => ns_results.push(ns),
            Err(e) => {
                assert(given[i as int] matches Err(e2) && e2@ == e@);
                assert(first_error_at(given, e@));
                return Err(e);
            },
        }
        i = i + 1;
    }
    Ok(ns_results)
}


} // verus!
