//! Bootstrapping feature flags from an on-disk clone of the config repository.
//! The sidecar reads the files; this module decides where they are, which
//! namespaces and features they hold, and the git blob sha of each feature.
use vstd::prelude::*;
use vstd::string::StringExecFns;

use crate::backend::{Feature, GetRepositoryContentsResponse, Namespace};
use crate::repo_dir::{
    collect_namespaces, first_error_at,
    entries_features, entries_view, entry_feature, features_view, lemma_entries_error_persists,
    lemma_entries_step, read_entry, DirEntry, EntryRead,
};
use crate::status::{status, Code, Status, StatusView};
use crate::text::{concat, concat3};

verus! {

/// Hashing a blob's bytes to its git sha, as a function.
pub open spec fn blob_sha_hash() -> spec_fn(Seq<u8>) -> Seq<char> {
    |b: Seq<u8>| git_blob_sha(b)
}

/// `r` is what loading the namespace from the entries gives: the features
/// the entries hold with their git blob shas, or the error of the first entry
/// that fails.
pub open spec fn bootstrap_loaded(
    namespace: Seq<char>,
    entries: Seq<crate::repo_dir::DirEntryView>,
    r: Result<Namespace, Status>,
) -> bool {
    match r {
        Ok(ns) => ns.name@ == namespace && entries_features(entries, blob_sha_hash()) == Ok::<
            Seq<crate::backend::FeatureEntryView>,
            StatusView,
        >(features_view(ns.features@)),
        Err(e) => entries_features(entries, blob_sha_hash()) == Err::<
            Seq<crate::backend::FeatureEntryView>,
            StatusView,
        >(e@),
    }
}

/// The SHA-1 digest of `data`.
pub uninterp spec fn sha1_digest(data: Seq<u8>) -> Seq<u8>;

/// Calls `<sha1::Sha1 as sha1::Digest>::digest`, which hashes its input with
/// SHA-1. The contract claims that the result is that digest, a function of the
/// input alone, and 20 bytes long.
#[verifier::external_body]
fn sha1(data: &[u8]) -> (d: Vec<u8>)
    ensures
        d@ == sha1_digest(data@),
        d@.len() == 20,
{
    <sha1::Sha1 as sha1::Digest>::digest(data).to_vec()
}

/// The ASCII decimal digits of `n`.
pub open spec fn decimal_ascii(n: nat) -> Seq<u8>
    decreases n,
{
    if n < 10 {
        seq![(48 + n) as u8]
    } else {
        decimal_ascii(n / 10) + seq![(48 + n % 10) as u8]
    }
}

/// The header that git puts before the contents of a blob: `blob <len>\0`.
pub open spec fn blob_header(len: nat) -> Seq<u8> {
    seq![98u8, 108u8, 111u8, 98u8, 32u8] + decimal_ascii(len) + seq![0u8]
}

/// The lower-case hex digit of a value below 16.
pub open spec fn hex_digit(n: int) -> char {
    if n < 10 {
        (48 + n) as char
    } else {
        (87 + n) as char
    }
}

/// Bytes in lower-case hex, two digits each.
pub open spec fn hex_lower(bytes: Seq<u8>) -> Seq<char>
    decreases bytes.len(),
{
    if bytes.len() == 0 {
        Seq::empty()
    } else {
        hex_lower(bytes.drop_last()) + seq![
            hex_digit((bytes.last() / 16) as int),
            hex_digit((bytes.last() % 16) as int),
        ]
    }
}

/// The git object id of a blob with the given contents: the hex SHA-1 of the
/// blob header followed by the contents.
pub open spec fn git_blob_sha(content: Seq<u8>) -> Seq<char> {
    hex_lower(sha1_digest(blob_header(content.len()) + content))
}

fn push_decimal(out: &mut Vec<u8>, n: usize)
    ensures
        final(out)@ == old(out)@ + decimal_ascii(n as nat),
    decreases n,
{
    if n >= 10 {
        push_decimal(out, n / 10);
    }
    out.push((48 + n % 10) as u8);
    assert(final(out)@ =~= old(out)@ + decimal_ascii(n as nat));
}

fn hex_digit_str(n: u8) -> (r: &'static str)
    requires
        n < 16,
    ensures
        r@ == seq![hex_digit(n as int)],
{
    proof {
        reveal_strlit("0");
        reveal_strlit("1");
        reveal_strlit("2");
        reveal_strlit("3");
        reveal_strlit("4");
        reveal_strlit("5");
        reveal_strlit("6");
        reveal_strlit("7");
        reveal_strlit("8");
        reveal_strlit("9");
        reveal_strlit("a");
        reveal_strlit("b");
        reveal_strlit("c");
        reveal_strlit("d");
        reveal_strlit("e");
        reveal_strlit("f");
    }
    let r = match n {
        0 => "0",
        1 => "1",
        2 => "2",
        3 => "3",
        4 => "4",
        5 => "5",
        6 => "6",
        7 => "7",
        8 => "8",
        9 => "9",
        10 => "a",
        11 => "b",
        12 => "c",
        13 => "d",
        14 => "e",
        _ => "f",
    };
    assert(r@ =~= seq![hex_digit(n as int)]);
    r
}

/// Bytes in lower-case hex.
pub fn to_hex_lower(bytes: &[u8]) -> (s: String)
    ensures
        s@ == hex_lower(bytes@),
{
    let mut s = String::new();
    let mut i: usize = 0;
    assert(bytes@.subrange(0, 0) =~= Seq::<u8>::empty());
    while i < bytes.len()
        invariant
            i <= bytes@.len(),
            s@ == hex_lower(bytes@.subrange(0, i as int)),
        decreases bytes@.len() - i,
    {
        let b = bytes[i];
        s.append(hex_digit_str(b / 16));
        s.append(hex_digit_str(b % 16));
        assert(bytes@.subrange(0, i + 1).drop_last() =~= bytes@.subrange(0, i as int));
        i = i + 1;
    }
    assert(bytes@.subrange(0, i as int) =~= bytes@);
    s
}

/// The git object id of a blob with the given contents, as git computes it:
/// the hex SHA-1 of `blob <len>\0` followed by the contents.
pub fn git_blob_hash(content: &[u8]) -> (sha: String)
    ensures
        sha@ == git_blob_sha(content@),
{
    let mut data: Vec<u8> = vec![98u8, 108u8, 111u8, 98u8, 32u8];
    push_decimal(&mut data, content.len());
    data.push(0u8);
    let mut i: usize = 0;
    let ghost header = data@;
    assert(header =~= blob_header(content@.len()));
    while i < content.len()
        invariant
            i <= content@.len(),
            data@ == header + content@.subrange(0, i as int),
        decreases content@.len() - i,
    {
        data.push(content[i]);
        i = i + 1;
        assert(data@ =~= header + content@.subrange(0, i as int));
    }
    assert(content@.subrange(0, i as int) =~= content@);
    let digest = sha1(data.as_slice());
    to_hex_lower(digest.as_slice())
}

/// Bootstraps the sidecar's feature flags from an on-disk clone of the config
/// repository.
#[derive(Debug)]
pub struct Bootstrap {
    /// The directory that holds the `.git` folder.
    repo_path: String,
    /// The directory that holds the repository contents (`lekko.root.yaml`):
    /// the repository itself, or its `contents` subdirectory under git-sync.
    contents_path: Option<String>,
}

impl Bootstrap {
    /// The directory that holds the `.git` folder.
    pub closed spec fn repo_path(&self) -> Seq<char> {
        self.repo_path@
    }

    /// The directory that holds the repository contents, once validated.
    pub closed spec fn contents_path(&self) -> Option<Seq<char>> {
        match self.contents_path {
            Some(p) => Some(p@),
            None => None,
        }
    }

    /// A bootstrap from the repository at `repo_path`, not validated yet.
    pub fn new(repo_path: String) -> (b: Bootstrap)
        ensures
            b.repo_path() == repo_path@,
            b.contents_path() is None,
    {
        Bootstrap { repo_path, contents_path: None }
    }

    /// The path of the `.git` folder.
    pub fn git_dir_path(&self) -> (p: String)
        ensures
            p@ == self.repo_path() + "/.git"@,
    {
        concat(self.repo_path.as_str(), "/.git")
    }

    /// Where `lekko.root.yaml` is in a plain clone.
    pub fn default_root_yaml_path(&self) -> (p: String)
        ensures
            p@ == self.repo_path() + "/lekko.root.yaml"@,
    {
        concat(self.repo_path.as_str(), "/lekko.root.yaml")
    }

    /// Where the contents are under git-sync.
    pub fn git_sync_contents_path(&self) -> (p: String)
        ensures
            p@ == self.repo_path() + "/contents"@,
    {
        concat(self.repo_path.as_str(), "/contents")
    }

    /// Where `lekko.root.yaml` is under git-sync.
    pub fn git_sync_root_yaml_path(&self) -> (p: String)
        ensures
            p@ == self.repo_path() + "/contents"@ + "/lekko.root.yaml"@,
    {
        let contents = self.git_sync_contents_path();
        concat(contents.as_str(), "/lekko.root.yaml")
    }

    /// Checks that the repository exists and finds its contents. `git_dir`
    /// is what inspecting the `.git` path gave: whether it is a directory, or
    /// the error, as text; the flags say whether `lekko.root.yaml` exists in the
    /// repository and under git-sync. The repository itself is preferred.
    pub fn validate(
        &mut self,
        git_dir: Result<bool, String>,
        default_root_exists: bool,
        git_sync_root_exists: bool,
    ) -> (r: Result<(), Status>)
        ensures
            final(self).repo_path() == old(self).repo_path(),
            match git_dir {
                Err(e) => r is Err && final(self).contents_path() == old(self).contents_path()
                    && r->Err_0@ == status(
                    Code::Internal,
                    "path "@ + old(self).repo_path() + "/.git"@ + " does not exist: "@ + e@,
                ),
                Ok(false) => r is Err && final(self).contents_path() == old(self).contents_path()
                    && r->Err_0@ == status(
                    Code::Internal,
                    "path "@ + old(self).repo_path() + "/.git"@ + " is not a directory"@,
                ),
                Ok(true) => if default_root_exists {
                    r is Ok && final(self).contents_path() == Some(old(self).repo_path())
                } else if git_sync_root_exists {
                    r is Ok && final(self).contents_path() == Some(
                        old(self).repo_path() + "/contents"@,
                    )
                } else {
                    r is Err && final(self).contents_path() == old(self).contents_path()
                        && r->Err_0@ == status(
                        Code::Internal,
                        "paths "@ + old(self).repo_path() + "/lekko.root.yaml"@ + " or "@
                            + old(self).repo_path() + "/contents"@ + "/lekko.root.yaml"@
                            + " do not exist"@,
                    )
                },
            },
    {
        let git_dir_path = self.git_dir_path();
        match git_dir {
            Err(e) => {
                let msg = concat3("path ", git_dir_path.as_str(), " does not exist: ");
                let msg = concat(msg.as_str(), e.as_str());
                assert(msg@ =~= "path "@ + self.repo_path@ + "/.git"@ + " does not exist: "@ + e@);
                return Err(Status { code: Code::Internal, message: msg });
            },
            Ok(false) => {
                let msg = concat3("path ", git_dir_path.as_str(), " is not a directory");
                assert(msg@ =~= "path "@ + self.repo_path@ + "/.git"@ + " is not a directory"@);
                return Err(Status { code: Code::Internal, message: msg });
            },
            Ok(true) => {},
        }
        if default_root_exists {
            self.contents_path = Some(self.repo_path.clone());
            return Ok(());
        }
        if !git_sync_root_exists {
            let default_root = self.default_root_yaml_path();
            let git_sync_root = self.git_sync_root_yaml_path();
            let msg = concat3("paths ", default_root.as_str(), " or ");
            let msg = concat3(msg.as_str(), git_sync_root.as_str(), " do not exist");
            assert(msg@ =~= "paths "@ + self.repo_path@ + "/lekko.root.yaml"@ + " or "@
                + self.repo_path@ + "/contents"@ + "/lekko.root.yaml"@ + " do not exist"@);
            return Err(Status { code: Code::Internal, message: msg });
        }
        self.contents_path = Some(self.git_sync_contents_path());
        Ok(())
    }

    /// Where `lekko.root.yaml` is, once the repository is validated.
    pub fn root_yaml_path(&self) -> (p: String)
        requires
            self.contents_path() is Some,
        ensures
            p@ == self.contents_path()->0 + "/lekko.root.yaml"@,
    {
        match &self.contents_path {
            Some(c) => concat(c.as_str(), "/lekko.root.yaml"),
            None => String::new(),
        }
    }

    /// The directory that holds the serialized features of a namespace, once
    /// the repository is validated.
    pub fn namespace_proto_path(&self, namespace: &str) -> (p: String)
        requires
            self.contents_path() is Some,
        ensures
            p@ == self.contents_path()->0 + "/"@ + namespace@ + "/gen/proto"@,
    {
        match &self.contents_path {
            Some(c) => {
                let p = concat3(c.as_str(), "/", namespace);
                concat(p.as_str(), "/gen/proto")
            },
            None => String::new(),
        }
    }

    /// The contents of the repository from what was read of it: the commit
    /// sha of its HEAD and each of its namespaces; the first error read, if
    /// any.
    pub fn load(
        &self,
        commit_sha: Result<String, Status>,
        namespaces: Vec<Result<Namespace, Status>>,
    ) -> (r: Result<GetRepositoryContentsResponse, Status>)
        ensures
            match commit_sha {
                Err(e) => (r matches Err(e2) && e2@ == e@),
                Ok(sha) => match r {
                    Ok(resp) => resp.commit_sha@ == sha@ && resp.namespaces@.len()
                        == namespaces@.len() && forall|i: int|
                        0 <= i < namespaces@.len() ==> #[trigger] namespaces@[i] is Ok
                            && resp.namespaces@[i] == namespaces@[i]->Ok_0,
                    Err(e) => first_error_at(namespaces@, e@),
                },
            },
    {
        let commit_sha = match commit_sha {
            Ok(s) => s,
            Err(e) => {
                return Err(e);
            },
        };
        let ns_results = match collect_namespaces(namespaces) {
            Ok(v) => v,
            Err(e) => {
                return Err(e);
            },
        };
        Ok(GetRepositoryContentsResponse { commit_sha, namespaces: ns_results })
    }

    /// The features of a namespace, from the entries of its `gen/proto`
    /// directory in order: each `<feature>.proto.bin` file gives the feature
    /// it decodes to, with the git blob sha of its bytes; other entries are
    /// skipped; the first entry that cannot be read fails the whole.
    pub fn load_namespace(&self, namespace: &str, entries: Vec<DirEntry>) -> (r: Result<Namespace, Status>)
        ensures
            bootstrap_loaded(namespace@, entries_view(entries@), r),
    {
        let ghost hash = blob_sha_hash();
        let ghost all = entries_view(entries@);
        let mut features: Vec<Feature> = Vec::new();
        let mut rest = entries;
        let n = rest.len();
        let mut i: usize = 0;
        proof {
            assert(all.subrange(0, 0) =~= Seq::<crate::repo_dir::DirEntryView>::empty());
            assert(features_view(features@) =~= Seq::<crate::backend::FeatureEntryView>::empty());
            assert(all.subrange(0, n as int) =~= all);
        }
        while i < n
            invariant
                n == all.len(),
                all == entries_view(entries@),
                hash == blob_sha_hash(),
                i <= n,
                rest@.len() == n - i,
                entries_view(rest@) == all.subrange(i as int, n as int),
                entries_features(all.subrange(0, i as int), hash) == Ok::<
                    Seq<crate::backend::FeatureEntryView>,
                    StatusView,
                >(features_view(features@)),
            decreases n - i,
        {
            proof {
                lemma_entries_step(all, i as int, hash);
                assert(entries_view(rest@)[0] == all[i as int]);
            }
            let ghost before = rest@;
            let entry = rest.remove(0);
            proof {
                assert(rest@ =~= before.subrange(1, before.len() as int));
                assert(entries_view(rest@) =~= all.subrange(i + 1, n as int)) by {
                    assert forall|k: int| 0 <= k < rest@.len() implies entries_view(rest@)[k] == all[i + 1 + k] by {
                        assert(entries_view(before)[k + 1] == all.subrange(i as int, n as int)[k + 1]);
                    }
                }
            }
            proof {
                assert(entry@ == entries_view(before)[0]);
                assert(entry@ == all[i as int]);
            }
            let read = read_entry(entry);
            let ghost read_view = read@;
            match read {
                EntryRead::Failed(e) => {
                    proof {
                        assert(entries_features(all.subrange(0, i + 1), hash) == Err::<
                            Seq<crate::backend::FeatureEntryView>,
                            StatusView,
                        >(e@));
                        lemma_entries_error_persists(all, i + 1, hash);
                    }
                    return Err(e);
                },
                EntryRead::Skipped => {
                    assert(entry_feature(all[i as int], hash) == Ok::<
                        Option<crate::backend::FeatureEntryView>,
                        StatusView,
                    >(None));
                },
                EntryRead::Feature(name, bytes, decoded) => {
                    let sha = git_blob_hash(bytes.as_slice());
                    let d = match decoded {
                        Ok(d) => d,
                        Err(e) => {
                            proof {
                                assert(entries_features(all.subrange(0, i + 1), hash) == Err::<
                                    Seq<crate::backend::FeatureEntryView>,
                                    StatusView,
                                >(e@));
                                lemma_entries_error_persists(all, i + 1, hash);
                            }
                            return Err(e);
                        },
                    };
                    let ghost added = crate::backend::FeatureEntryView {
                        name: name@,
                        sha: sha@,
                        feature: Some(d@),
                    };
                    assert(sha@ == hash(bytes@));
                    assert(entry_feature(all[i as int], hash) == Ok::<
                        Option<crate::backend::FeatureEntryView>,
                        StatusView,
                    >(Some(added)));
                    let ghost old_features = features@;
                    features.push(Feature { name, sha, feature: Some(d) });
                    proof {
                        assert(features_view(features@) =~= features_view(old_features).push(added));
                    }
                },
            }
            i = i + 1;
        }
        proof {
            assert(all.subrange(0, n as int) =~= all);
        }
        Ok(Namespace { name: String::from_str(namespace), features })
    }

    /// The git sha of a blob with the given contents.
    pub fn git_hash_object(&self, content: &[u8]) -> (r: Result<String, Status>)
        ensures
            r matches Ok(sha) && sha@ == git_blob_sha(content@),
    {
        Ok(git_blob_hash(content))
    }
}

/// The namespaces that `lekko.root.yaml` lists, given its `namespaces`
/// entries: each entry that is a string names one; any other entry is an error.
pub fn namespace_names(entries: Vec<Option<String>>) -> (r: Result<Vec<String>, Status>)
    ensures
        names_of_entries(option_texts(entries@), r),
{
    let mut names: Vec<String> = Vec::new();
    let mut i: usize = 0;
    while i < entries.len()
        invariant
            i <= entries@.len(),
            names@.len() == i,
            forall|j: int|
                0 <= j < i ==> #[trigger] entries@[j] is Some && names@[j]@ == entries@[j]->0@,
        decreases entries@.len() - i,
    {
        match &entries[i] {
            Some(s) => {
                names.push(s.clone());
            },
            None => {
                assert(option_texts(entries@)[i as int] is None);
                return Err(Status::internal("unknown namespace"));
            },
        }
        i = i + 1;
    }
    assert forall|j: int| 0 <= j < entries@.len() implies option_texts(entries@)[j] is Some && #[trigger] names@[j]@
        == option_texts(entries@)[j]->0 by {
        assert(entries@[j] is Some && names@[j]@ == entries@[j]->0@);
    }
    Ok(names)
}

/// The texts of optional strings.
pub open spec fn option_texts(s: Seq<Option<String>>) -> Seq<Option<Seq<char>>> {
    s.map_values(|e: Option<String>| match e {
        Some(t) => Some(t@),
        None => None,
    })
}

/// A YAML line break, as the scanner of `yaml_rust` sees one.
pub open spec fn is_line_break(c: char) -> bool {
    c == '\n' || c == '\r'
}

/// A blank or the end of a line, as the scanner of `yaml_rust` tests for
/// after an indicator.
pub open spec fn is_blankz(c: char) -> bool {
    c == ' ' || c == '\t' || c == '\n' || c == '\r' || c == '\0'
}

/// Whether the character at `i` is a block indicator: `-`, `?` or `:`
/// followed by a blank or by the end of the text. Every block collection
/// starts at such an indicator, or at a key that lies before its `:` on the
/// same line.
pub open spec fn is_indicator_at(s: Seq<char>, i: int) -> bool {
    &&& (s[i] == '-' || s[i] == '?' || s[i] == ':')
    &&& (i + 1 >= s.len() || is_blankz(s[i + 1]))
}

/// What a line counts: the part before its comment, unless it holds a
/// quote (a `#` there may sit inside a quoted scalar), then all of it.
pub open spec fn line_pick(cut: bool, quoted: bool, before: nat, all: nat) -> nat {
    if cut && !quoted {
        before
    } else {
        all
    }
}

pub open spec fn max_nat(a: nat, b: nat) -> nat {
    if a > b {
        a
    } else {
        b
    }
}

/// Walks `s` from `i`: `col` chars of the current line seen so far, `cut`
/// whether its comment has started, `quoted` whether it holds a quote;
/// `reach_cut` / `reach_all` one past the column of its last block
/// indicator before the comment / anywhere, `opens_cut` / `opens_all` its
/// flow openers before the comment / anywhere; `widest` and `flows` what the
/// lines before count.
pub open spec fn nesting_scan(
    s: Seq<char>,
    i: int,
    col: nat,
    cut: bool,
    quoted: bool,
    reach_cut: nat,
    reach_all: nat,
    opens_cut: nat,
    opens_all: nat,
    widest: nat,
    flows: nat,
) -> nat
    decreases s.len() - i,
{
    let reach = line_pick(cut, quoted, reach_cut, reach_all);
    let opens = line_pick(cut, quoted, opens_cut, opens_all);
    if i < 0 || i >= s.len() {
        2 * (max_nat(widest, reach) + 1) + 2 * (flows + opens)
    } else if is_line_break(s[i]) {
        nesting_scan(s, i + 1, 0, false, false, 0, 0, 0, 0, max_nat(widest, reach), flows + opens)
    } else {
        let c = s[i];
        let cut2 = cut || (c == '#' && (col == 0 || s[i - 1] == ' ' || s[i - 1] == '\t'));
        let here: nat = if is_indicator_at(s, i) { col + 1 } else { 0 };
        let open = c == '[' || c == '{';
        nesting_scan(
            s,
            i + 1,
            col + 1,
            cut2,
            quoted || c == '"' || c == '\'',
            if cut2 { reach_cut } else { max_nat(reach_cut, here) },
            max_nat(reach_all, here),
            if open && !cut2 { opens_cut + 1 } else { opens_cut },
            if open { opens_all + 1 } else { opens_all },
            widest,
            flows,
        )
    }
}

/// A bound on how deeply the nodes of a YAML text nest. In block context
/// each nested collection starts at a strictly larger column than the one
/// around it (an indentless sequence shares its mapping's column), at a
/// block indicator or at a key before its `:`, and outside comments; so
/// block nesting stays under twice one past the furthest such column. Each
/// flow collection adds at most two levels (a sequence entry may be a
/// single-pair mapping), and the openers outside comments are counted.
pub open spec fn yaml_nesting_bound(s: Seq<char>) -> nat {
    nesting_scan(s, 0, 0, false, false, 0, 0, 0, 0, 0, 0)
}

/// The deepest nesting that the YAML loader is handed: it recurses once per
/// level, so deeper texts are refused before they reach it.
pub const YAML_NESTING_LIMIT: u128 = 400;

/// Whether the nesting bound of `text` stays within `YAML_NESTING_LIMIT`.
pub fn yaml_nests_shallowly(text: &str) -> (b: bool)
    ensures
        b == (yaml_nesting_bound(text@) <= YAML_NESTING_LIMIT),
{
    let chars = crate::text::chars_of(text);
    let n = chars.len();
    let mut i: usize = 0;
    let mut col: usize = 0;
    let mut cut: bool = false;
    let mut quoted: bool = false;
    let mut reach_cut: usize = 0;
    let mut reach_all: usize = 0;
    let mut opens_cut: usize = 0;
    let mut opens_all: usize = 0;
    let mut widest: usize = 0;
    let mut flows: usize = 0;
    while i < n
        invariant
            n == chars@.len(),
            chars@ == text@,
            i <= n,
            col <= i,
            reach_cut <= reach_all,
            reach_all <= col,
            opens_cut <= opens_all,
            flows + opens_all <= i,
            widest <= i,
            col > 0 ==> !is_line_break(chars@[i - 1]),
            yaml_nesting_bound(text@) == nesting_scan(
                text@,
                i as int,
                col as nat,
                cut,
                quoted,
                reach_cut as nat,
                reach_all as nat,
                opens_cut as nat,
                opens_all as nat,
                widest as nat,
                flows as nat,
            ),
        decreases n - i,
    {
        let c = chars[i];
        let reach = if cut && !quoted { reach_cut } else { reach_all };
        let opens = if cut && !quoted { opens_cut } else { opens_all };
        if c == '\n' || c == '\r' {
            if reach > widest {
                widest = reach;
            }
            flows = flows + opens;
            col = 0;
            cut = false;
            quoted = false;
            reach_cut = 0;
            reach_all = 0;
            opens_cut = 0;
            opens_all = 0;
        } else {
            if c == '#' && (col == 0 || chars[i - 1] == ' ' || chars[i - 1] == '\t') {
                cut = true;
            }
            let indicator = (c == '-' || c == '?' || c == ':') && (i + 1 >= n || {
                let d = chars[i + 1];
                d == ' ' || d == '\t' || d == '\n' || d == '\r' || d == '\0'
            });
            if indicator {
                if col + 1 > reach_all {
                    reach_all = col + 1;
                }
                if !cut && col + 1 > reach_cut {
                    reach_cut = col + 1;
                }
            }
            if c == '[' || c == '{' {
                opens_all = opens_all + 1;
                if !cut {
                    opens_cut = opens_cut + 1;
                }
            }
            if c == '"' || c == '\'' {
                quoted = true;
            }
            col = col + 1;
        }
        i = i + 1;
    }
    let reach = if cut && !quoted { reach_cut } else { reach_all };
    let opens = if cut && !quoted { opens_cut } else { opens_all };
    if reach > widest {
        widest = reach;
    }
    let bound: u128 = 2 * (widest as u128 + 1) + 2 * (flows as u128 + opens as u128);
    bound <= YAML_NESTING_LIMIT
}

/// A node of a YAML document, as far as this library reads one: a string,
/// a sequence, a mapping with its pairs in order, or any other value.
pub enum YamlNode {
    Str(String),
    Array(Vec<YamlNode>),
    Hash(Vec<(YamlNode, YamlNode)>),
    Other,
}

/// The mathematical value of a `YamlNode`.
pub enum YamlValue {
    Str(Seq<char>),
    Array(Seq<YamlValue>),
    Hash(Seq<(YamlValue, YamlValue)>),
    Other,
}

pub open spec fn yaml_value(n: YamlNode) -> YamlValue
    decreases n,
{
    match n {
        YamlNode::Str(s) => YamlValue::Str(s@),
        YamlNode::Array(a) => YamlValue::Array(yaml_values(a@)),
        YamlNode::Hash(h) => YamlValue::Hash(yaml_pairs(h@)),
        YamlNode::Other => YamlValue::Other,
    }
}

pub open spec fn yaml_values(s: Seq<YamlNode>) -> Seq<YamlValue>
    decreases s,
{
    if s.len() == 0 {
        Seq::empty()
    } else {
        seq![yaml_value(s[0])] + yaml_values(s.subrange(1, s.len() as int))
    }
}

pub open spec fn yaml_pairs(s: Seq<(YamlNode, YamlNode)>) -> Seq<(YamlValue, YamlValue)>
    decreases s,
{
    if s.len() == 0 {
        Seq::empty()
    } else {
        seq![(yaml_value(s[0].0), yaml_value(s[0].1))] + yaml_pairs(s.subrange(1, s.len() as int))
    }
}

impl View for YamlNode {
    type V = YamlValue;

    open spec fn view(&self) -> YamlValue {
        yaml_value(*self)
    }
}

/// The value of a list of nodes is the list of their values.
proof fn lemma_yaml_values(s: Seq<YamlNode>)
    ensures
        yaml_values(s).len() == s.len(),
        forall|i: int| 0 <= i < s.len() ==> #[trigger] yaml_values(s)[i] == yaml_value(s[i]),
    decreases s.len(),
{
    if s.len() > 0 {
        lemma_yaml_values(s.subrange(1, s.len() as int));
    }
}

/// The value of a list of pairs is the list of their values.
proof fn lemma_yaml_pairs(s: Seq<(YamlNode, YamlNode)>)
    ensures
        yaml_pairs(s).len() == s.len(),
        forall|i: int|
            0 <= i < s.len() ==> #[trigger] yaml_pairs(s)[i] == (yaml_value(s[i].0), yaml_value(s[i].1)),
    decreases s.len(),
{
    if s.len() > 0 {
        lemma_yaml_pairs(s.subrange(1, s.len() as int));
    }
}

#[verifier::external_type_specification]
#[verifier::external_body]
pub struct ExYaml(yaml_rust::Yaml);

/// What `yaml_rust::YamlLoader::load_from_str` makes of a text: its first
/// document, as a `YamlValue`, or `None` when it loads no document; or the
/// `Debug` text of its scan error.
pub uninterp spec fn yaml_document(text: Seq<char>) -> Result<Option<YamlValue>, Seq<char>>;

/// Turns a `yaml_rust::Yaml` into a `YamlNode`, one for one: a string stays
/// a string, a sequence and a mapping keep their elements and pairs in
/// order, and every other value is `Other`. It serves `yaml_first_document`
/// alone.
#[verifier::external_body]
fn yaml_node(y: yaml_rust::Yaml) -> YamlNode {
    match y {
        yaml_rust::Yaml::String(s) => YamlNode::Str(s),
        yaml_rust::Yaml::Array(a) => YamlNode::Array(a.into_iter().map(yaml_node).collect()),
        yaml_rust::Yaml::Hash(h) => YamlNode::Hash(h.into_iter().map(|(k, v)| (yaml_node(k), yaml_node(v))).collect()),
        _ => YamlNode::Other,
    }
}

/// Calls `yaml_rust::YamlLoader::load_from_str` and keeps the first document
/// it loads, if any, as a `YamlNode`; a scan error comes back as its `Debug`
/// text. The contract claims that both are a function of the text alone.
/// The loader recurses once per level of nesting, so only texts whose
/// nesting bound is within `YAML_NESTING_LIMIT` are handed to it.
#[verifier::external_body]
fn yaml_first_document(text: &str) -> (r: Result<Option<YamlNode>, String>)
    requires
        yaml_nesting_bound(text@) <= YAML_NESTING_LIMIT,
    ensures
        match r {
            Ok(Some(doc)) => yaml_document(text@) == Ok::<Option<YamlValue>, Seq<char>>(Some(doc@)),
            Ok(None) => yaml_document(text@) == Ok::<Option<YamlValue>, Seq<char>>(None),
            Err(t) => yaml_document(text@) == Err::<Option<YamlValue>, Seq<char>>(t@),
        },
{
    match yaml_rust::YamlLoader::load_from_str(text) {
        Ok(docs) => match docs.into_iter().next() {
            Some(doc) => Ok(Some(yaml_node(doc))),
            None => Ok(None),
        },
        Err(e) => Err(format!("{:?}", e)),
    }
}

/// The value under the string key `key` in mapping pairs: that of the first
/// pair whose key is that string (the keys of a loaded mapping are
/// distinct), else `Other`, as indexing a `Yaml` gives its bad value.
pub open spec fn hash_get(pairs: Seq<(YamlValue, YamlValue)>, key: Seq<char>) -> YamlValue
    decreases pairs.len(),
{
    if pairs.len() == 0 {
        YamlValue::Other
    } else if pairs[0].0 == YamlValue::Str(key) {
        pairs[0].1
    } else {
        hash_get(pairs.drop_first(), key)
    }
}

/// The value under the string key `key` of a mapping; `Other` for any
/// other node.
pub open spec fn yaml_get(doc: YamlValue, key: Seq<char>) -> YamlValue {
    match doc {
        YamlValue::Hash(pairs) => hash_get(pairs, key),
        _ => YamlValue::Other,
    }
}

/// The elements of a sequence; none for any other node.
pub open spec fn yaml_elements(v: YamlValue) -> Seq<YamlValue> {
    match v {
        YamlValue::Array(a) => a,
        _ => Seq::empty(),
    }
}

/// The text of a string node; `None` for any other node.
pub open spec fn yaml_text(v: YamlValue) -> Option<Seq<char>> {
    match v {
        YamlValue::Str(s) => Some(s),
        _ => None,
    }
}

/// The entries that a root document lists under `namespaces`: the text of
/// each string, `None` for any other node.
pub open spec fn namespace_entries(doc: YamlValue) -> Seq<Option<Seq<char>>> {
    yaml_elements(yaml_get(doc, "namespaces"@)).map_values(|v: YamlValue| yaml_text(v))
}

/// What the entries of `namespaces` give: their texts, in order, when every
/// entry is a string; else the "unknown namespace" error.
pub open spec fn names_of_entries(entries: Seq<Option<Seq<char>>>, r: Result<Vec<String>, Status>) -> bool {
    match r {
        Ok(names) => names@.len() == entries.len() && forall|i: int|
            0 <= i < entries.len() ==> entries[i] is Some && #[trigger] names@[i]@ == entries[i]->0,
        Err(e) => e@ == status(Code::Internal, "unknown namespace"@) && exists|i: int|
            0 <= i < entries.len() && #[trigger] entries[i] is None,
    }
}

/// The node under the string key `key` of a mapping node; `None` where
/// there is none (`Other` in the model).
fn yaml_lookup<'a>(doc: &'a YamlNode, key: &String) -> (v: Option<&'a YamlNode>)
    ensures
        match v {
            Some(n) => n@ == yaml_get(doc@, key@),
            None => yaml_get(doc@, key@) == YamlValue::Other,
        },
{
    match doc {
        YamlNode::Hash(pairs) => {
            proof {
                lemma_yaml_pairs(pairs@);
            }
            let ghost all = yaml_pairs(pairs@);
            assert(all.subrange(0, all.len() as int) =~= all);
            let mut i: usize = 0;
            while i < pairs.len()
                invariant
                    i <= pairs@.len(),
                    all == yaml_pairs(pairs@),
                    all.len() == pairs@.len(),
                    forall|j: int| 0 <= j < pairs@.len() ==> #[trigger] all[j] == (yaml_value(pairs@[j].0), yaml_value(pairs@[j].1)),
                    doc@ == YamlValue::Hash(all),
                    hash_get(all, key@) == hash_get(all.subrange(i as int, all.len() as int), key@),
                decreases pairs@.len() - i,
            {
                proof {
                    let rest = all.subrange(i as int, all.len() as int);
                    assert(rest[0] == all[i as int]);
                    assert(rest.drop_first() =~= all.subrange(i + 1, all.len() as int));
                }
                match &pairs[i].0 {
                    YamlNode::Str(s) => {
                        if *s == *key {
                            return Some(&pairs[i].1);
                        }
                    },
                    _ => {},
                }
                i = i + 1;
            }
            assert(all.subrange(i as int, all.len() as int).len() == 0);
            None
        },
        _ => None,
    }
}

/// The entries of `namespaces` in a root document: the text of each string
/// entry, `None` for any other.
fn namespace_list(doc: &YamlNode) -> (entries: Vec<Option<String>>)
    ensures
        option_texts(entries@) == namespace_entries(doc@),
{
    let key = String::from_str("namespaces");
    proof {
        reveal_strlit("namespaces");
    }
    let mut entries: Vec<Option<String>> = Vec::new();
    let items = match yaml_lookup(doc, &key) {
        Some(YamlNode::Array(a)) => a,
        _ => {
            assert(namespace_entries(doc@) =~= Seq::empty());
            return entries;
        },
    };
    proof {
        lemma_yaml_values(items@);
    }
    let ghost elems = yaml_values(items@);
    assert(yaml_elements(yaml_get(doc@, "namespaces"@)) == elems);
    let mut i: usize = 0;
    while i < items.len()
        invariant
            i <= items@.len(),
            elems == yaml_values(items@),
            elems.len() == items@.len(),
            forall|j: int| 0 <= j < items@.len() ==> #[trigger] elems[j] == yaml_value(items@[j]),
            entries@.len() == i,
            forall|j: int| 0 <= j < i ==> #[trigger] entries@[j] == match &items@[j] {
                YamlNode::Str(s) => Some(*s),
                _ => None::<String>,
            },
        decreases items@.len() - i,
    {
        match &items[i] {
            YamlNode::Str(s) => entries.push(Some(s.clone())),
            _ => entries.push(None),
        }
        i = i + 1;
    }
    let ghost mapped = option_texts(entries@);
    assert forall|j: int| 0 <= j < elems.len() implies #[trigger] mapped[j] == yaml_text(elems[j]) by {
        assert(elems[j] == yaml_value(items@[j]));
    }
    assert(mapped =~= namespace_entries(doc@));
    entries
}

/// The namespaces that the contents of `lekko.root.yaml` list under
/// `namespaces`: each entry must be a string. An internal error with the
/// scanner's message when the text is not YAML, or when it may nest deeper
/// than the loader can safely follow; `None` when it holds no document at all.
pub fn find_namespace_names(contents: &str) -> (r: Option<Result<Vec<String>, Status>>)
    ensures
        yaml_nesting_bound(contents@) > YAML_NESTING_LIMIT ==> (r matches Some(Err(e)) && e@
            == status(Code::Internal, "failed to parse lekko yaml: nesting too deep"@)),
        yaml_nesting_bound(contents@) <= YAML_NESTING_LIMIT ==> match yaml_document(contents@) {
            Err(t) => r matches Some(Err(e)) && e@ == status(
                Code::Internal,
                "failed to parse lekko yaml: "@ + t,
            ),
            Ok(None) => r is None,
            Ok(Some(doc)) => r matches Some(names) && names_of_entries(namespace_entries(doc), names),
        },
{
    if !yaml_nests_shallowly(contents) {
        return Some(Err(Status::internal("failed to parse lekko yaml: nesting too deep")));
    }
    let doc = match yaml_first_document(contents) {
        Ok(Some(doc)) => doc,
        Ok(None) => {
            return None;
        },
        Err(t) => {
            let message = concat("failed to parse lekko yaml: ", t.as_str());
            return Some(Err(Status { code: Code::Internal, message }));
        },
    };
    let entries = namespace_list(&doc);
    Some(namespace_names(entries))
}

/// The chars of the suffix of a serialized feature file.
pub open spec fn proto_bin_suffix() -> Seq<char> {
    seq!['.', 'p', 'r', 'o', 't', 'o', '.', 'b', 'i', 'n']
}

/// The name of the feature that a file in `gen/proto` holds: the file name
/// without its `.proto.bin` suffix; `None` for a file without that suffix.
pub fn feature_name(filename: &str) -> (r: Option<String>)
    ensures
        match r {
            Some(name) => filename@ == name@ + proto_bin_suffix(),
            None => !crate::text::is_suffix(proto_bin_suffix(), filename@),
        },
{
    let chars = crate::text::chars_of(filename);
    let suffix: Vec<char> = vec!['.', 'p', 'r', 'o', 't', 'o', '.', 'b', 'i', 'n'];
    assert(suffix@ =~= proto_bin_suffix());
    if !crate::text::ends_with(&chars, &suffix) {
        return None;
    }
    let end = chars.len() - suffix.len();
    let name = String::from_str(vstd::string::StrSliceExecFns::substring_char(filename, 0, end));
    assert(filename@ =~= name@ + proto_bin_suffix());
    Some(name)
}

} // verus!
