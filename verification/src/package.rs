//! The feature-reconciliation engine.
//!
//! A [`Package`] owns a mapping from manifest paths to [`CrateInfo`] records,
//! discovered lazily while occurrences are collected. The engine never walks
//! the disk itself: the caller hands it an [`FsTree`] snapshot — the scan
//! root, the source files beneath it (text split into lines), and every
//! manifest present at an ancestor of the root or anywhere beneath it. The
//! engine filters the files, extracts feature names, resolves each file to
//! its owning manifest by walking parent directories upward, loads each
//! manifest's declared-feature table through the `toml` parser, and computes
//! the hidden set `used - exposed`, where feature identity is the name alone.

use crate::feature::clickable_of;
use crate::feature::feature_name;
use crate::feature::Feature;
use crate::feature::FeatureV;
use crate::paths::hidden_below;
use crate::paths::hidden_below_exec;
use crate::paths::is_rust_file;
use crate::paths::is_rust_file_exec;
use crate::paths::join_path;
use crate::paths::lemma_parent_shorter;
use crate::paths::parent_of;
use crate::paths::path_within;
use crate::paths::path_within_exec;
use crate::paths::spec_join;
use crate::paths::spec_parent;
use crate::paths::str_eq;
use crate::text::extract_feature_names;
use crate::text::feature_names_of_line;
use crate::text::str_views;
use vstd::prelude::*;

verus! {

// ---------------------------------------------------------------------------
// The snapshot of the tree that the caller scans for the engine.
// ---------------------------------------------------------------------------
/// One source file of the scanned tree: its path and its text, line by line.
pub struct SourceFile {
    pub path: String,
    pub lines: Vec<String>,
}

/// The mathematical image of a [`SourceFile`].
#[verifier::ext_equal]
pub struct SourceFileV {
    pub path: Seq<char>,
    pub lines: Seq<Seq<char>>,
}

impl View for SourceFile {
    type V = SourceFileV;

    open spec fn view(&self) -> SourceFileV {
        SourceFileV { path: self.path@, lines: str_views(self.lines@) }
    }
}

/// One package manifest found on disk: its path and its raw text.
pub struct ManifestFile {
    pub path: String,
    pub text: String,
}

/// The mathematical image of a [`ManifestFile`].
#[verifier::ext_equal]
pub struct ManifestFileV {
    pub path: Seq<char>,
    pub text: Seq<char>,
}

impl View for ManifestFile {
    type V = ManifestFileV;

    open spec fn view(&self) -> ManifestFileV {
        ManifestFileV { path: self.path@, text: self.text@ }
    }
}

/// A snapshot of the directory tree to audit, as gathered by the caller:
/// the scan root, whether it exists at all, every file found beneath it, and
/// every manifest present on disk in a directory that could own one of those
/// files (ancestors of the root included).
pub struct FsTree {
    pub root: String,
    pub root_exists: bool,
    pub files: Vec<SourceFile>,
    pub manifests: Vec<ManifestFile>,
}

/// The mathematical image of an [`FsTree`].
#[verifier::ext_equal]
pub struct FsTreeV {
    pub root: Seq<char>,
    pub root_exists: bool,
    pub files: Seq<SourceFileV>,
    pub manifests: Seq<ManifestFileV>,
}

impl View for FsTree {
    type V = FsTreeV;

    open spec fn view(&self) -> FsTreeV {
        FsTreeV {
            root: self.root@,
            root_exists: self.root_exists,
            files: self.files@.map_values(|f: SourceFile| f@),
            manifests: manifests_view(self.manifests@),
        }
    }
}

/// The views of a sequence of manifests.
pub open spec fn manifests_view(ms: Seq<ManifestFile>) -> Seq<ManifestFileV> {
    ms.map_values(|m: ManifestFile| m@)
}

/// The paths of a sequence of manifests.
pub open spec fn manifest_paths(ms: Seq<ManifestFileV>) -> Seq<Seq<char>> {
    ms.map_values(|m: ManifestFileV| m.path)
}

/// The text of the first manifest with path `p`, from index `k` on.
pub open spec fn manifest_text_from(ms: Seq<ManifestFileV>, p: Seq<char>, k: int) -> Option<
    Seq<char>,
>
    decreases ms.len() - k,
{
    if k < 0 || k >= ms.len() {
        None
    } else if ms[k].path == p {
        Some(ms[k].text)
    } else {
        manifest_text_from(ms, p, k + 1)
    }
}

/// The text of the manifest with path `p`, if the snapshot holds one.
pub open spec fn manifest_text(ms: Seq<ManifestFileV>, p: Seq<char>) -> Option<Seq<char>> {
    manifest_text_from(ms, p, 0)
}

// ---------------------------------------------------------------------------
// Sets of features, keyed by name.
// ---------------------------------------------------------------------------
/// The views of a sequence of features.
pub open spec fn feats(v: Seq<Feature>) -> Seq<FeatureV> {
    v.map_values(|f: Feature| f@)
}

/// Some feature in `s` has the name `n`.
pub open spec fn has_name(s: Seq<FeatureV>, n: Seq<char>) -> bool {
    exists|i: int| 0 <= i < s.len() && #[trigger] feature_name(s[i]) == n
}

/// All features in `s` have pairwise distinct names: `s` is a set of
/// features keyed by name.
pub open spec fn names_unique(s: Seq<FeatureV>) -> bool {
    forall|i: int, j: int|
        0 <= i < j < s.len() ==> #[trigger] feature_name(s[i]) != #[trigger] feature_name(s[j])
}

/// The set of names occurring in `s`.
pub open spec fn names_set(s: Seq<FeatureV>) -> Set<Seq<char>> {
    Set::new(|n: Seq<char>| has_name(s, n))
}

/// Inserting into a feature set: a feature whose name is already present is
/// discarded, so the first-seen representative survives.
pub open spec fn feature_insert(s: Seq<FeatureV>, f: FeatureV) -> Seq<FeatureV> {
    if has_name(s, feature_name(f)) {
        s
    } else {
        s.push(f)
    }
}

/// Inserting every feature of `fs`, from index `j` on, in order.
pub open spec fn insert_all(s: Seq<FeatureV>, fs: Seq<FeatureV>, j: int) -> Seq<FeatureV>
    decreases fs.len() - j,
{
    if j < 0 || j >= fs.len() {
        s
    } else {
        insert_all(feature_insert(s, fs[j]), fs, j + 1)
    }
}

pub proof fn lemma_feature_insert_unique(s: Seq<FeatureV>, f: FeatureV)
    requires
        names_unique(s),
    ensures
        names_unique(feature_insert(s, f)),
        forall|n: Seq<char>|
            #[trigger] has_name(feature_insert(s, f), n) <==> has_name(s, n) || n == feature_name(
                f,
            ),
{
    if !has_name(s, feature_name(f)) {
        let r = s.push(f);
        assert forall|n: Seq<char>| #[trigger]
            has_name(r, n) implies has_name(s, n) || n == feature_name(f) by {
            let i = choose|i: int| 0 <= i < r.len() && #[trigger] feature_name(r[i]) == n;
            if i < s.len() {
                assert(feature_name(s[i]) == n);
            }
        }
        assert forall|n: Seq<char>| has_name(s, n) || n == feature_name(f) implies #[trigger]
            has_name(r, n) by {
            if has_name(s, n) {
                let i = choose|i: int| 0 <= i < s.len() && #[trigger] feature_name(s[i]) == n;
                assert(feature_name(r[i]) == n);
            } else {
                assert(feature_name(r[s.len() as int]) == n);
            }
        }
        assert forall|i: int, j: int| 0 <= i < j < r.len() implies #[trigger] feature_name(r[i])
            != #[trigger] feature_name(r[j]) by {
            if j == s.len() as int {
                assert(feature_name(r[i]) == feature_name(s[i]));
                if feature_name(s[i]) == feature_name(f) {
                    assert(has_name(s, feature_name(f)));
                }
            }
        }
    }
}

// ---------------------------------------------------------------------------
// Crate records.
// ---------------------------------------------------------------------------
/// A representation of one crate of the audited tree: the path of its
/// manifest and its three feature sets.
pub struct CrateInfo {
    /// Path to the manifest file.
    path: String,
    /// Set of all exposed features.
    exposed_features: Vec<Feature>,
    /// Set of all used features.
    used_features: Vec<Feature>,
    /// The difference between the used features and the exposed features.
    hidden_features: Vec<Feature>,
}

/// The mathematical image of a [`CrateInfo`].
#[verifier::ext_equal]
pub struct CrateInfoV {
    pub path: Seq<char>,
    pub exposed: Seq<FeatureV>,
    pub used: Seq<FeatureV>,
    pub hidden: Seq<FeatureV>,
}

impl View for CrateInfo {
    type V = CrateInfoV;

    closed spec fn view(&self) -> CrateInfoV {
        CrateInfoV {
            path: self.path@,
            exposed: feats(self.exposed_features@),
            used: feats(self.used_features@),
            hidden: feats(self.hidden_features@),
        }
    }
}

/// Each of the crate's three feature sets is keyed by name.
pub open spec fn crate_wf(c: CrateInfoV) -> bool {
    names_unique(c.used) && names_unique(c.exposed) && names_unique(c.hidden)
}

/// Inserting a used feature into one crate's record.
pub open spec fn crate_insert_used(c: CrateInfoV, f: FeatureV) -> CrateInfoV {
    CrateInfoV { used: feature_insert(c.used, f), ..c }
}

impl CrateInfo {
    /// Creates a new, empty record for the manifest at `path`.
    pub fn new(path: &str) -> (r: Self)
        ensures
            r@ == (CrateInfoV {
                path: path@,
                exposed: Seq::<FeatureV>::empty(),
                used: Seq::<FeatureV>::empty(),
                hidden: Seq::<FeatureV>::empty(),
            }),
            crate_wf(r@),
    {
        let path = String::from_str(path);
        let exposed_features: Vec<Feature> = Vec::new();
        let used_features: Vec<Feature> = Vec::new();
        let hidden_features: Vec<Feature> = Vec::new();
        let r = CrateInfo { path, exposed_features, used_features, hidden_features };
        proof {
            assert(r@.exposed =~= Seq::<FeatureV>::empty());
            assert(r@.used =~= Seq::<FeatureV>::empty());
            assert(r@.hidden =~= Seq::<FeatureV>::empty());
        }
        r
    }

    /// Adds some features to the set of used features, keeping one
    /// representative per name.
    pub fn add_used_features(&mut self, new_features: &Vec<Feature>)
        requires
            names_unique(old(self)@.used),
        ensures
            final(self)@.path == old(self)@.path,
            final(self)@.exposed == old(self)@.exposed,
            final(self)@.hidden == old(self)@.hidden,
            final(self)@.used == insert_all(old(self)@.used, feats(new_features@), 0),
            names_unique(final(self)@.used),
    {
        let ghost total = insert_all(self@.used, feats(new_features@), 0);
        let mut j: usize = 0;
        while j < new_features.len()
            invariant
                j <= new_features.len(),
                names_unique(self@.used),
                total == insert_all(self@.used, feats(new_features@), j as int),
                self@.path == old(self)@.path,
                self@.exposed == old(self)@.exposed,
                self@.hidden == old(self)@.hidden,
            decreases new_features.len() - j,
        {
            let f = &new_features[j];
            let present = features_contain_name(&self.used_features, f.name());
            proof {
                lemma_feature_insert_unique(self@.used, feats(new_features@)[j as int]);
            }
            if !present {
                let ghost before = self@.used;
                self.used_features.push(f.clone());
                proof {
                    assert(self@.used =~= before.push(feats(new_features@)[j as int]));
                }
            }
            j = j + 1;
        }
    }
}

/// Whether the feature set behind `fs` holds a feature named `n`.
fn features_contain_name(fs: &Vec<Feature>, n: &str) -> (r: bool)
    ensures
        r == has_name(feats(fs@), n@),
{
    let mut k: usize = 0;
    while k < fs.len()
        invariant
            k <= fs.len(),
            forall|j: int| 0 <= j < k ==> #[trigger] feature_name(feats(fs@)[j]) != n@,
        decreases fs.len() - k,
    {
        if str_eq(fs[k].name(), n) {
            proof {
                assert(feature_name(feats(fs@)[k as int]) == n@);
            }
            return true;
        }
        k = k + 1;
    }
    false
}

/// Whether `v` holds a string whose characters are `s`'s.
fn contains_str(v: &Vec<String>, s: &str) -> (r: bool)
    ensures
        r == str_views(v@).contains(s@),
{
    let mut k: usize = 0;
    while k < v.len()
        invariant
            k <= v.len(),
            forall|j: int| 0 <= j < k ==> str_views(v@)[j] != s@,
        decreases v.len() - k,
    {
        if str_eq(v[k].as_str(), s) {
            proof {
                assert(str_views(v@)[k as int] == s@);
            }
            return true;
        }
        k = k + 1;
    }
    proof {
        if str_views(v@).contains(s@) {
            let i = choose|i: int| 0 <= i < str_views(v@).len() && str_views(v@)[i] == s@;
            assert(str_views(v@)[i] != s@);
        }
    }
    false
}

// ---------------------------------------------------------------------------
// The mapping from manifest paths to crate records.
// ---------------------------------------------------------------------------
/// The views of a sequence of crate records.
pub open spec fn crates_view(m: Seq<CrateInfo>) -> Seq<CrateInfoV> {
    m.map_values(|c: CrateInfo| c@)
}

/// Index of the first record with manifest path `p`, from `k` on, or `-1`.
pub open spec fn crate_index_from(m: Seq<CrateInfoV>, p: Seq<char>, k: int) -> int
    decreases m.len() - k,
{
    if k < 0 || k >= m.len() {
        -1
    } else if m[k].path == p {
        k
    } else {
        crate_index_from(m, p, k + 1)
    }
}

/// Index of the record with manifest path `p`, or `-1` if there is none.
pub open spec fn crate_index(m: Seq<CrateInfoV>, p: Seq<char>) -> int {
    crate_index_from(m, p, 0)
}

/// The mapping holds a record for the manifest path `p`.
pub open spec fn has_crate(m: Seq<CrateInfoV>, p: Seq<char>) -> bool {
    crate_index(m, p) >= 0
}

pub proof fn lemma_crate_index_from(m: Seq<CrateInfoV>, p: Seq<char>, k: int)
    requires
        0 <= k <= m.len(),
    ensures
        crate_index_from(m, p, k) == -1 ==> forall|j: int|
            k <= j < m.len() ==> #[trigger] m[j].path != p,
        crate_index_from(m, p, k) != -1 ==> {
            &&& k <= crate_index_from(m, p, k) < m.len()
            &&& m[crate_index_from(m, p, k)].path == p
            &&& forall|j: int| k <= j < crate_index_from(m, p, k) ==> #[trigger] m[j].path != p
        },
    decreases m.len() - k,
{
    if k < m.len() && m[k].path != p {
        lemma_crate_index_from(m, p, k + 1);
    }
}

/// The well-formedness of the engine's mapping: manifest paths are unique
/// keys, and every record's feature sets are keyed by name.
pub open spec fn mapping_wf(m: Seq<CrateInfoV>) -> bool {
    &&& forall|i: int, j: int| 0 <= i < j < m.len() ==> (#[trigger] m[i].path) != (#[trigger] m[j].path)
    &&& forall|i: int| 0 <= i < m.len() ==> crate_wf(#[trigger] m[i])
}

/// Recording one used feature under the manifest `mp`: the record is created
/// on first insertion, and a feature whose name the record already holds is
/// discarded.
pub open spec fn insert_used(m: Seq<CrateInfoV>, mp: Seq<char>, f: FeatureV) -> Seq<CrateInfoV> {
    let i = crate_index(m, mp);
    if i == -1 {
        m.push(
            CrateInfoV {
                path: mp,
                exposed: Seq::empty(),
                used: seq![f],
                hidden: Seq::empty(),
            },
        )
    } else {
        m.update(i, crate_insert_used(m[i], f))
    }
}

// ---------------------------------------------------------------------------
// Manifest resolution: the upward directory walk.
// ---------------------------------------------------------------------------
/// The file name every manifest has.
pub open spec fn manifest_file_name() -> Seq<char> {
    "Cargo.toml"@
}

/// Resolution of a directory to its owning manifest: starting at `dir`, the
/// candidate `dir/Cargo.toml` is accepted if the mapping already knows it or
/// the snapshot shows it on disk; otherwise the walk moves to the parent
/// directory, and fails when none remains.
pub open spec fn resolve_spec(
    m: Seq<CrateInfoV>,
    mans: Seq<Seq<char>>,
    dir: Seq<char>,
) -> Option<Seq<char>>
    decreases dir.len(),
    via resolve_spec_dec
{
    let cand = spec_join(dir, manifest_file_name());
    if has_crate(m, cand) || mans.contains(cand) {
        Some(cand)
    } else {
        match spec_parent(dir) {
            None => None,
            Some(d) => resolve_spec(m, mans, d),
        }
    }
}

#[via_fn]
proof fn resolve_spec_dec(m: Seq<CrateInfoV>, mans: Seq<Seq<char>>, dir: Seq<char>) {
    lemma_parent_shorter(dir);
}

/// Whether a used feature can be recorded: an exposed feature has no
/// location; a used one needs its file's directory and, from there, an
/// owning manifest.
pub open spec fn add_feature_spec(
    m: Seq<CrateInfoV>,
    mans: Seq<Seq<char>>,
    f: FeatureV,
) -> Option<Seq<CrateInfoV>> {
    match f {
        FeatureV::Exposed { .. } => None,
        FeatureV::Used { name, path, line_number } => match spec_parent(path) {
            None => None,
            Some(d) => match resolve_spec(m, mans, d) {
                None => None,
                Some(mp) => Some(insert_used(m, mp, f)),
            },
        },
    }
}

// ---------------------------------------------------------------------------
// The engine.
// ---------------------------------------------------------------------------
/// A mapping from manifest paths to crate records. Only crates whose code
/// uses features are ever entered.
pub struct Package {
    mapping: Vec<CrateInfo>,
    /// Paths to be ignored, together with everything beneath them.
    ignored_paths: Vec<String>,
    /// Feature names to be ignored everywhere.
    ignored_features: Vec<String>,
}

/// The mathematical image of a [`Package`].
#[verifier::ext_equal]
pub struct PackageV {
    pub mapping: Seq<CrateInfoV>,
    pub ignored_paths: Seq<Seq<char>>,
    pub ignored_features: Seq<Seq<char>>,
}

impl View for Package {
    type V = PackageV;

    closed spec fn view(&self) -> PackageV {
        PackageV {
            mapping: crates_view(self.mapping@),
            ignored_paths: str_views(self.ignored_paths@),
            ignored_features: str_views(self.ignored_features@),
        }
    }
}

impl Package {
    /// The engine's invariant.
    pub open spec fn wf(&self) -> bool {
        mapping_wf(self@.mapping)
    }

    /// Creates an engine with an empty mapping and the given exclusion
    /// configuration, fixed for its whole life.
    pub fn new(ignored_paths: Vec<String>, ignored_features: Vec<String>) -> (r: Self)
        ensures
            r.wf(),
            r@.mapping == Seq::<CrateInfoV>::empty(),
            r@.ignored_paths == str_views(ignored_paths@),
            r@.ignored_features == str_views(ignored_features@),
    {
        let r = Package { mapping: Vec::new(), ignored_paths, ignored_features };
        proof {
            assert(r@.mapping =~= Seq::<CrateInfoV>::empty());
        }
        r
    }

    /// Whether the mapping holds a record for the manifest path `p`.
    fn mapping_has_path(&self, p: &str) -> (r: bool)
        ensures
            r == has_crate(self@.mapping, p@),
    {
        let ghost m = self@.mapping;
        let mut k: usize = 0;
        while k < self.mapping.len()
            invariant
                k <= self.mapping.len(),
                m == self@.mapping,
                forall|j: int| 0 <= j < k ==> #[trigger] m[j].path != p@,
            decreases self.mapping.len() - k,
        {
            if str_eq(self.mapping[k].path.as_str(), p) {
                proof {
                    lemma_crate_index_from(m, p@, 0);
                    assert(m[k as int].path == p@);
                }
                return true;
            }
            k = k + 1;
        }
        proof {
            lemma_crate_index_from(m, p@, 0);
        }
        false
    }

    /// Finds the manifest file associated to a directory path, walking
    /// upward from it.
    pub fn find_associated_cargo(&self, path: &str, manifests: &Vec<ManifestFile>) -> (r: Option<
        String,
    >)
        ensures
            (r is Some) == (resolve_spec(
                self@.mapping,
                manifest_paths(manifests_view(manifests@)),
                path@,
            ) is Some),
            r is Some ==> r->Some_0@ == resolve_spec(
                self@.mapping,
                manifest_paths(manifests_view(manifests@)),
                path@,
            )->Some_0,
    {
        let ghost mans = manifest_paths(manifests_view(manifests@));
        let mut cur = String::from_str(path);
        loop
            invariant
                resolve_spec(self@.mapping, mans, path@) == resolve_spec(
                    self@.mapping,
                    mans,
                    cur@,
                ),
                mans == manifest_paths(manifests_view(manifests@)),
            decreases cur@.len(),
        {
            // Create a candidate by appending the manifest file name, and
            // test whether the mapping knows it or the disk holds it.
            let candidate = join_path(cur.as_str(), "Cargo.toml");
            if self.mapping_has_path(candidate.as_str()) || manifests_have_path(
                manifests,
                candidate.as_str(),
            ) {
                return Some(candidate);
            }
            match parent_of(cur.as_str()) {
                None => {
                    return None;
                },
                Some(p) => {
                    proof {
                        lemma_parent_shorter(cur@);
                    }
                    cur = p;
                },
            }
        }
    }

    /// Adds the feature to the mapping from manifest paths to crates; its
    /// owning manifest is resolved from its file's directory upward.
    pub fn add_feature(&mut self, feature: Feature, manifests: &Vec<ManifestFile>) -> (r: Result<
        (),
        String,
    >)
        requires
            old(self).wf(),
        ensures
            final(self).wf(),
            final(self)@.ignored_paths == old(self)@.ignored_paths,
            final(self)@.ignored_features == old(self)@.ignored_features,
            match add_feature_spec(
                old(self)@.mapping,
                manifest_paths(manifests_view(manifests@)),
                feature@,
            ) {
                Some(m) => r is Ok && final(self)@.mapping == m,
                None => r is Err && final(self)@.mapping == old(self)@.mapping,
            },
            match feature@ {
                FeatureV::Exposed { .. } => r matches Err(e) && e@
                    == "internal error: should have a path"@,
                FeatureV::Used { path, .. } => {
                    &&& (spec_parent(path) is None ==> (r matches Err(e) && e@
                        == "path has no parent"@))
                    &&& (spec_parent(path) is Some && resolve_spec(
                        old(self)@.mapping,
                        manifest_paths(manifests_view(manifests@)),
                        spec_parent(path)->Some_0,
                    ) is None ==> (r matches Err(e) && e@
                        == "could not find corresponding Cargo file"@))
                },
            },
    {
        let fpath: String = match feature.path() {
            Some(p) => p.clone(),
            None => {
                return Err(String::from_str("internal error: should have a path"));
            },
        };
        let parent: String = match parent_of(fpath.as_str()) {
            None => {
                return Err(String::from_str("path has no parent"));
            },
            Some(d) => d,
        };
        let cargo_path: String = match self.find_associated_cargo(parent.as_str(), manifests) {
            None => {
                return Err(String::from_str("could not find corresponding Cargo file"));
            },
            Some(c) => c,
        };
        self.insert_feature_at(cargo_path, feature);
        Ok(())
    }

    /// Inserts a feature into the record of the manifest at `cargo_path`,
    /// creating the record if the mapping does not hold it yet.
    fn insert_feature_at(&mut self, cargo_path: String, feature: Feature)
        requires
            old(self).wf(),
        ensures
            final(self).wf(),
            final(self)@.ignored_paths == old(self)@.ignored_paths,
            final(self)@.ignored_features == old(self)@.ignored_features,
            final(self)@.mapping == insert_used(old(self)@.mapping, cargo_path@, feature@),
    {
        let ghost m0 = self@.mapping;
        let n = self.mapping.len();
        let mut k: usize = 0;
        while k < n
            invariant
                k <= n,
                n == self.mapping.len(),
                self@ == old(self)@,
                m0 == self@.mapping,
                mapping_wf(m0),
                forall|j: int| 0 <= j < k ==> #[trigger] m0[j].path != cargo_path@,
            decreases n - k,
        {
            if str_eq(self.mapping[k].path.as_str(), cargo_path.as_str()) {
                proof {
                    assert(m0[k as int].path == cargo_path@);
                    lemma_crate_index_from(m0, cargo_path@, 0);
                    assert(crate_index(m0, cargo_path@) == k as int);
                }
                let mut ci = self.mapping.remove(k);
                let present = features_contain_name(&ci.used_features, feature.name());
                proof {
                    lemma_feature_insert_unique(ci@.used, feature@);
                }
                let ghost ci_new = crate_insert_used(ci@, feature@);
                if !present {
                    let ghost before = ci@.used;
                    ci.used_features.push(feature);
                    proof {
                        assert(ci@.used =~= before.push(feature@));
                        assert(ci@ =~= ci_new);
                    }
                }
                self.mapping.insert(k, ci);
                proof {
                    assert(self@.mapping =~= m0.update(k as int, ci_new));
                    assert(final(self)@.mapping == insert_used(m0, cargo_path@, feature@));
                    assert forall|i: int| 0 <= i < self@.mapping.len() implies crate_wf(
                        #[trigger] self@.mapping[i],
                    ) by {
                        if i != k as int {
                            assert(self@.mapping[i] == m0[i]);
                        }
                    }
                }
                return ;
            }
            k = k + 1;
        }
        proof {
            lemma_crate_index_from(m0, cargo_path@, 0);
            assert(crate_index(m0, cargo_path@) == -1);
        }
        let mut ci = CrateInfo::new(cargo_path.as_str());
        let mut nf: Vec<Feature> = Vec::new();
        nf.push(feature);
        ci.add_used_features(&nf);
        proof {
            let fv = feats(nf@);
            assert(fv =~= seq![feature@]);
            let e = Seq::<FeatureV>::empty();
            assert(!has_name(e, feature_name(fv[0])));
            assert(insert_all(e, fv, 0) == insert_all(feature_insert(e, fv[0]), fv, 1));
            assert(insert_all(feature_insert(e, fv[0]), fv, 1) == feature_insert(e, fv[0]));
            assert(feature_insert(e, fv[0]) =~= seq![feature@]);
            assert(ci@.used =~= seq![feature@]);
        }
        self.mapping.push(ci);
        proof {
            assert(self@.mapping =~= m0.push(ci@));
            assert(final(self)@.mapping == insert_used(m0, cargo_path@, feature@));
            assert forall|i: int| 0 <= i < self@.mapping.len() implies crate_wf(
                #[trigger] self@.mapping[i],
            ) by {
                if i < m0.len() {
                    assert(self@.mapping[i] == m0[i]);
                }
            }
        }
    }
}

// ---------------------------------------------------------------------------
// Collecting used features over a snapshot.
// ---------------------------------------------------------------------------
/// `p` matches one of the ignored paths, or descends from one.
pub open spec fn excluded_path(igp: Seq<Seq<char>>, p: Seq<char>) -> bool {
    exists|i: int| 0 <= i < igp.len() && path_within(p, #[trigger] igp[i])
}

/// A file is scanned when it lies under the root, no component of it below
/// the root is hidden (starts with a dot), it is not excluded, and it is a
/// Rust source file.
pub open spec fn eligible_file(root: Seq<char>, igp: Seq<Seq<char>>, p: Seq<char>) -> bool {
    path_within(p, root) && !hidden_below(root, p) && !excluded_path(igp, p) && is_rust_file(p)
}

/// Recording the names of one line, from index `j` on: ignored names are
/// skipped, every other one is recorded under its owning manifest; `None`
/// when some name cannot be resolved to a manifest.
pub open spec fn scan_names(
    m: Seq<CrateInfoV>,
    mans: Seq<Seq<char>>,
    igf: Seq<Seq<char>>,
    names: Seq<Seq<char>>,
    j: int,
    fpath: Seq<char>,
    ln: u64,
) -> Option<Seq<CrateInfoV>>
    decreases names.len() - j,
{
    if j < 0 || j >= names.len() {
        Some(m)
    } else if igf.contains(names[j]) {
        scan_names(m, mans, igf, names, j + 1, fpath, ln)
    } else {
        match add_feature_spec(
            m,
            mans,
            FeatureV::Used { name: names[j], path: fpath, line_number: ln },
        ) {
            None => None,
            Some(m2) => scan_names(m2, mans, igf, names, j + 1, fpath, ln),
        }
    }
}

/// Recording one file's occurrences, line by line from index `i` on; line
/// numbers are counted from zero.
pub open spec fn scan_lines(
    m: Seq<CrateInfoV>,
    mans: Seq<Seq<char>>,
    igf: Seq<Seq<char>>,
    f: SourceFileV,
    i: int,
) -> Option<Seq<CrateInfoV>>
    decreases f.lines.len() - i,
{
    if i < 0 || i >= f.lines.len() {
        Some(m)
    } else {
        match scan_names(m, mans, igf, feature_names_of_line(f.lines[i]), 0, f.path, i as u64) {
            None => None,
            Some(m2) => scan_lines(m2, mans, igf, f, i + 1),
        }
    }
}

/// Recording every eligible file of the snapshot, from index `k` on.
pub open spec fn scan_files(
    m: Seq<CrateInfoV>,
    tree: FsTreeV,
    igp: Seq<Seq<char>>,
    igf: Seq<Seq<char>>,
    k: int,
) -> Option<Seq<CrateInfoV>>
    decreases tree.files.len() - k,
{
    if k < 0 || k >= tree.files.len() {
        Some(m)
    } else if eligible_file(tree.root, igp, tree.files[k].path) {
        match scan_lines(m, manifest_paths(tree.manifests), igf, tree.files[k], 0) {
            None => None,
            Some(m2) => scan_files(m2, tree, igp, igf, k + 1),
        }
    } else {
        scan_files(m, tree, igp, igf, k + 1)
    }
}

// ---------------------------------------------------------------------------
// Loading exposed features.
// ---------------------------------------------------------------------------
/// What the `toml` crate's parser yields for a manifest text: `None` when
/// the text is not well-formed TOML; otherwise the keys of the top-level
/// `features` table, in the order the parser's table iterates them (the
/// empty sequence when there is no such table).
pub uninterp spec fn manifest_feature_names(text: Seq<char>) -> Option<Seq<Seq<char>>>;

/// Relies on `toml::Table`'s `FromStr` impl, which parses a whole TOML
/// document, and on `toml::map::Map::keys`: whether the text parses, and
/// which keys its `features` table holds, are functions of the text alone.
#[verifier::external_body]
fn parse_manifest_features(text: &str) -> (r: Result<Vec<String>, ()>)
    ensures
        (r is Ok) == (manifest_feature_names(text@) is Some),
        r is Ok ==> manifest_feature_names(text@) == Some(str_views(r->Ok_0@)),
{
    match text.parse::<toml::Table>() {
        Err(_) => Err(()),
        Ok(tab) => match tab.get("features") {
            Some(toml::Value::Table(t)) => Ok(t.keys().cloned().collect()),
            _ => Ok(Vec::new()),
        },
    }
}

/// The exposed set built from declared feature names, from index `j` on:
/// ignored names are left out, and one representative survives per name.
pub open spec fn exposed_build(
    acc: Seq<FeatureV>,
    keys: Seq<Seq<char>>,
    j: int,
    igf: Seq<Seq<char>>,
) -> Seq<FeatureV>
    decreases keys.len() - j,
{
    if j < 0 || j >= keys.len() {
        acc
    } else if igf.contains(keys[j]) {
        exposed_build(acc, keys, j + 1, igf)
    } else {
        exposed_build(feature_insert(acc, FeatureV::Exposed { name: keys[j] }), keys, j + 1, igf)
    }
}

/// Loading the declared features of every crate in the mapping, from index
/// `k` on: `None` when some manifest's text is missing from the snapshot or
/// does not parse.
pub open spec fn load_exposed(
    m: Seq<CrateInfoV>,
    mans: Seq<ManifestFileV>,
    igf: Seq<Seq<char>>,
    k: int,
) -> Option<Seq<CrateInfoV>>
    decreases m.len() - k,
{
    if k < 0 || k >= m.len() {
        Some(m)
    } else {
        match manifest_text(mans, m[k].path) {
            None => None,
            Some(text) => match manifest_feature_names(text) {
                None => None,
                Some(keys) => load_exposed(
                    m.update(
                        k,
                        CrateInfoV { exposed: exposed_build(Seq::empty(), keys, 0, igf), ..m[k] },
                    ),
                    mans,
                    igf,
                    k + 1,
                ),
            },
        }
    }
}

/// The text of the snapshot's manifest at path `p`, if any.
fn find_manifest_text<'a>(ms: &'a Vec<ManifestFile>, p: &str) -> (r: Option<&'a String>)
    ensures
        match manifest_text(manifests_view(ms@), p@) {
            None => r is None,
            Some(t) => r is Some && r->Some_0@ == t,
        },
{
    let ghost mv = manifests_view(ms@);
    let mut k: usize = 0;
    while k < ms.len()
        invariant
            k <= ms.len(),
            mv == manifests_view(ms@),
            manifest_text_from(mv, p@, 0) == manifest_text_from(mv, p@, k as int),
        decreases ms.len() - k,
    {
        if str_eq(ms[k].path.as_str(), p) {
            proof {
                assert(mv[k as int].path == p@);
            }
            return Some(&ms[k].text);
        }
        k = k + 1;
    }
    None
}

/// The exposed set for one manifest's declared names.
fn build_exposed(keys: &Vec<String>, ignored: &Vec<String>) -> (r: Vec<Feature>)
    ensures
        feats(r@) == exposed_build(Seq::empty(), str_views(keys@), 0, str_views(ignored@)),
        names_unique(feats(r@)),
{
    let ghost kv = str_views(keys@);
    let ghost igf = str_views(ignored@);
    let ghost total = exposed_build(Seq::empty(), kv, 0, igf);
    let mut out: Vec<Feature> = Vec::new();
    proof {
        assert(feats(out@) =~= Seq::<FeatureV>::empty());
    }
    let mut j: usize = 0;
    while j < keys.len()
        invariant
            j <= keys.len(),
            kv == str_views(keys@),
            igf == str_views(ignored@),
            total == exposed_build(feats(out@), kv, j as int, igf),
            names_unique(feats(out@)),
        decreases keys.len() - j,
    {
        let ig = contains_str(ignored, keys[j].as_str());
        if !ig {
            let present = features_contain_name(&out, keys[j].as_str());
            proof {
                lemma_feature_insert_unique(feats(out@), FeatureV::Exposed { name: kv[j as int] });
            }
            if !present {
                let ghost before = feats(out@);
                out.push(Feature::ExposedFeature { name: keys[j].clone() });
                proof {
                    assert(feats(out@) =~= before.push(
                        FeatureV::Exposed { name: kv[j as int] },
                    ));
                }
            }
        }
        j = j + 1;
    }
    out
}

// ---------------------------------------------------------------------------
// The hidden set: used minus exposed, by name.
// ---------------------------------------------------------------------------
/// The used features, from index `j` on, whose names the exposed set does
/// not hold, in their order.
pub open spec fn feature_diff_from(u: Seq<FeatureV>, e: Seq<FeatureV>, j: int) -> Seq<FeatureV>
    decreases u.len() - j,
{
    if j < 0 || j >= u.len() {
        Seq::empty()
    } else if has_name(e, feature_name(u[j])) {
        feature_diff_from(u, e, j + 1)
    } else {
        seq![u[j]] + feature_diff_from(u, e, j + 1)
    }
}

/// The difference `u - e`, by name.
pub open spec fn feature_diff(u: Seq<FeatureV>, e: Seq<FeatureV>) -> Seq<FeatureV> {
    feature_diff_from(u, e, 0)
}

/// Some feature of `s` at an index `>= j` has the name `n`.
pub open spec fn has_name_from(s: Seq<FeatureV>, j: int, n: Seq<char>) -> bool {
    exists|i: int| j <= i < s.len() && #[trigger] feature_name(s[i]) == n
}

/// What `feature_diff_from` holds: exactly the names used from `j` on and
/// not exposed, and, where the used set is keyed by name, so is the
/// difference.
pub proof fn lemma_feature_diff_from(u: Seq<FeatureV>, e: Seq<FeatureV>, j: int)
    requires
        0 <= j,
    ensures
        forall|n: Seq<char>|
            #[trigger] has_name(feature_diff_from(u, e, j), n) <==> (has_name_from(u, j, n)
                && !has_name(e, n)),
        names_unique(u) ==> names_unique(feature_diff_from(u, e, j)),
        forall|i: int|
            0 <= i < feature_diff_from(u, e, j).len() ==> exists|i2: int|
                j <= i2 < u.len() && u[i2] == #[trigger] feature_diff_from(u, e, j)[i],
    decreases u.len() - j,
{
    let d = feature_diff_from(u, e, j);
    if j < 0 || j >= u.len() {
        assert forall|n: Seq<char>| #[trigger]
            has_name(d, n) implies (has_name_from(u, j, n) && !has_name(e, n)) by {
            let i = choose|i: int| 0 <= i < d.len() && #[trigger] feature_name(d[i]) == n;
        }
    } else {
        lemma_feature_diff_from(u, e, j + 1);
        let d1 = feature_diff_from(u, e, j + 1);
        if has_name(e, feature_name(u[j])) {
            assert(d == d1);
            assert forall|n: Seq<char>|
                has_name_from(u, j, n) && !has_name(e, n) implies #[trigger] has_name(d, n) by {
                let i = choose|i: int| j <= i < u.len() && #[trigger] feature_name(u[i]) == n;
                assert(i != j);
                assert(has_name_from(u, j + 1, n));
            }
            assert forall|n: Seq<char>| #[trigger]
                has_name(d, n) implies has_name_from(u, j, n) && !has_name(e, n) by {
                assert(has_name_from(u, j + 1, n) && !has_name(e, n));
                let i = choose|i: int| j + 1 <= i < u.len() && #[trigger] feature_name(u[i]) == n;
                assert(j <= i < u.len());
            }
        } else {
            assert(d == seq![u[j]] + d1);
            assert(d[0] == u[j]);
            assert forall|n: Seq<char>| #[trigger]
                has_name(d, n) implies has_name_from(u, j, n) && !has_name(e, n) by {
                let i = choose|i: int| 0 <= i < d.len() && #[trigger] feature_name(d[i]) == n;
                if i == 0 {
                    assert(feature_name(u[j]) == n);
                } else {
                    assert(d[i] == d1[i - 1]);
                    assert(has_name(d1, n));
                    let i2 = choose|i2: int|
                        j + 1 <= i2 < u.len() && #[trigger] feature_name(u[i2]) == n;
                    assert(j <= i2 < u.len());
                }
            }
            assert forall|n: Seq<char>|
                has_name_from(u, j, n) && !has_name(e, n) implies #[trigger] has_name(d, n) by {
                let i = choose|i: int| j <= i < u.len() && #[trigger] feature_name(u[i]) == n;
                if i == j {
                    assert(feature_name(d[0]) == n);
                } else {
                    assert(has_name_from(u, j + 1, n));
                    assert(has_name(d1, n));
                    let i3 = choose|i3: int|
                        0 <= i3 < d1.len() && #[trigger] feature_name(d1[i3]) == n;
                    assert(d[i3 + 1] == d1[i3]);
                    assert(feature_name(d[i3 + 1]) == n);
                }
            }
            if names_unique(u) {
                assert forall|i: int, k: int| 0 <= i < k < d.len() implies #[trigger] feature_name(
                    d[i],
                ) != #[trigger] feature_name(d[k]) by {
                    if i == 0 {
                        assert(d[k] == d1[k - 1]);
                        assert(has_name(d1, feature_name(d1[k - 1])));
                        if feature_name(d[k]) == feature_name(u[j]) {
                            assert(has_name_from(u, j + 1, feature_name(u[j])));
                            let i2 = choose|i2: int|
                                j + 1 <= i2 < u.len() && #[trigger] feature_name(u[i2])
                                    == feature_name(u[j]);
                        }
                    } else {
                        assert(d[i] == d1[i - 1]);
                        assert(d[k] == d1[k - 1]);
                    }
                }
            }
            assert forall|i: int| 0 <= i < d.len() implies exists|i2: int|
                j <= i2 < u.len() && u[i2] == #[trigger] d[i] by {
                if i == 0 {
                    assert(u[j] == d[0]);
                } else {
                    assert(d[i] == d1[i - 1]);
                    let i2 = choose|i2: int| j + 1 <= i2 < u.len() && u[i2] == d1[i - 1];
                    assert(j <= i2 < u.len() && u[i2] == d[i]);
                }
            }
        }
    }
}

/// One crate's record after the hidden set is recomputed.
pub open spec fn compute_hidden_crate(c: CrateInfoV) -> CrateInfoV {
    CrateInfoV { hidden: feature_diff(c.used, c.exposed), ..c }
}

/// The whole mapping after every hidden set is recomputed.
pub open spec fn compute_hidden(m: Seq<CrateInfoV>) -> Seq<CrateInfoV> {
    m.map_values(|c: CrateInfoV| compute_hidden_crate(c))
}

/// The hidden features of one crate: its used features whose names its
/// exposed set does not hold.
fn build_diff(u: &Vec<Feature>, e: &Vec<Feature>) -> (r: Vec<Feature>)
    ensures
        feats(r@) == feature_diff(feats(u@), feats(e@)),
{
    let ghost uv = feats(u@);
    let ghost ev = feats(e@);
    let ghost total = feature_diff(uv, ev);
    let mut out: Vec<Feature> = Vec::new();
    proof {
        assert(feats(out@) =~= Seq::<FeatureV>::empty());
        assert(total =~= feats(out@) + feature_diff_from(uv, ev, 0));
    }
    let mut j: usize = 0;
    while j < u.len()
        invariant
            j <= u.len(),
            uv == feats(u@),
            ev == feats(e@),
            total == feats(out@) + feature_diff_from(uv, ev, j as int),
        decreases u.len() - j,
    {
        let present = features_contain_name(e, u[j].name());
        if !present {
            let ghost before = feats(out@);
            out.push(u[j].clone());
            proof {
                assert(feats(out@) =~= before.push(uv[j as int]));
                assert(feats(out@) + feature_diff_from(uv, ev, j + 1) =~= before + (seq![
                    uv[j as int],
                ] + feature_diff_from(uv, ev, j + 1)));
            }
        }
        j = j + 1;
    }
    proof {
        assert(total =~= feats(out@));
    }
    out
}

/// No crate of the mapping has any hidden feature.
pub open spec fn all_hidden_empty(m: Seq<CrateInfoV>) -> bool {
    forall|i: int| 0 <= i < m.len() ==> (#[trigger] m[i]).hidden.len() == 0
}

// ---------------------------------------------------------------------------
// The report.
// ---------------------------------------------------------------------------
/// The locator printed beside a hidden feature: `<path>:<line>` for a used
/// occurrence; a feature with no known location falls back to its name.
pub open spec fn locator_of(f: FeatureV) -> Seq<char> {
    match f {
        FeatureV::Used { path, line_number, .. } => clickable_of(path, line_number),
        FeatureV::Exposed { name } => name,
    }
}

/// One report line for a hidden feature: its name and its locator, each
/// behind a tab.
pub open spec fn hidden_line(f: FeatureV) -> Seq<char> {
    seq!['\t'] + feature_name(f) + seq!['\t'] + locator_of(f)
}

/// The report lines for a crate's hidden features, from index `j` on.
pub open spec fn hidden_lines_from(fs: Seq<FeatureV>, j: int) -> Seq<Seq<char>>
    decreases fs.len() - j,
{
    if j < 0 || j >= fs.len() {
        Seq::empty()
    } else {
        seq![hidden_line(fs[j])] + hidden_lines_from(fs, j + 1)
    }
}

/// The report block for one crate: nothing when it hides nothing, else a
/// header line with the manifest path and one line per hidden feature.
pub open spec fn crate_report(c: CrateInfoV) -> Seq<Seq<char>> {
    if c.hidden.len() == 0 {
        Seq::empty()
    } else {
        seq!["path: "@ + c.path] + hidden_lines_from(c.hidden, 0)
    }
}

/// The whole report, crate by crate from index `k` on.
pub open spec fn report_from(m: Seq<CrateInfoV>, k: int) -> Seq<Seq<char>>
    decreases m.len() - k,
{
    if k < 0 || k >= m.len() {
        Seq::empty()
    } else {
        crate_report(m[k]) + report_from(m, k + 1)
    }
}

impl Package {
    /// Whether `p` is an ignored path or descends from one.
    fn is_ignored_path(&self, p: &str) -> (r: bool)
        ensures
            r == excluded_path(self@.ignored_paths, p@),
    {
        let ghost igp = self@.ignored_paths;
        let mut k: usize = 0;
        while k < self.ignored_paths.len()
            invariant
                k <= self.ignored_paths.len(),
                igp == self@.ignored_paths,
                forall|j: int| 0 <= j < k ==> !path_within(p@, #[trigger] igp[j]),
            decreases self.ignored_paths.len() - k,
        {
            if path_within_exec(p, self.ignored_paths[k].as_str()) {
                proof {
                    assert(path_within(p@, igp[k as int]));
                }
                return true;
            }
            k = k + 1;
        }
        proof {
            if excluded_path(igp, p@) {
                let i = choose|i: int| 0 <= i < igp.len() && path_within(p@, #[trigger] igp[i]);
                assert(!path_within(p@, igp[i]));
            }
        }
        false
    }

    /// Records every name of one line that is not ignored, under the
    /// manifest owning the line's file.
    fn add_names(
        &mut self,
        names: &Vec<String>,
        fpath: &String,
        ln: u64,
        manifests: &Vec<ManifestFile>,
    ) -> (r: Result<(), String>)
        requires
            old(self).wf(),
        ensures
            final(self).wf(),
            final(self)@.ignored_paths == old(self)@.ignored_paths,
            final(self)@.ignored_features == old(self)@.ignored_features,
            match scan_names(
                old(self)@.mapping,
                manifest_paths(manifests_view(manifests@)),
                old(self)@.ignored_features,
                str_views(names@),
                0,
                fpath@,
                ln,
            ) {
                Some(m) => r is Ok && final(self)@.mapping == m,
                None => r is Err,
            },
    {
        let ghost mans = manifest_paths(manifests_view(manifests@));
        let ghost igf = self@.ignored_features;
        let ghost nv = str_views(names@);
        let ghost total = scan_names(self@.mapping, mans, igf, nv, 0, fpath@, ln);
        let mut j: usize = 0;
        while j < names.len()
            invariant
                j <= names.len(),
                self.wf(),
                self@.ignored_paths == old(self)@.ignored_paths,
                self@.ignored_features == igf,
                igf == old(self)@.ignored_features,
                nv == str_views(names@),
                mans == manifest_paths(manifests_view(manifests@)),
                total == scan_names(old(self)@.mapping, mans, igf, nv, 0, fpath@, ln),
                total == scan_names(self@.mapping, mans, igf, nv, j as int, fpath@, ln),
            decreases names.len() - j,
        {
            let ig = contains_str(&self.ignored_features, names[j].as_str());
            if !ig {
                let f = Feature::UsedFeature {
                    name: names[j].clone(),
                    path: fpath.clone(),
                    line_number: ln,
                };
                proof {
                    assert(f@ == FeatureV::Used {
                        name: nv[j as int],
                        path: fpath@,
                        line_number: ln,
                    });
                }
                let ghost mprev = self@.mapping;
                match self.add_feature(f, manifests) {
                    Ok(()) => {},
                    Err(e) => {
                        proof {
                            assert(!igf.contains(nv[j as int]));
                            assert(add_feature_spec(
                                mprev,
                                mans,
                                FeatureV::Used {
                                    name: nv[j as int],
                                    path: fpath@,
                                    line_number: ln,
                                },
                            ) is None);
                            assert(scan_names(mprev, mans, igf, nv, j as int, fpath@, ln) is None);
                        }
                        return Err(e);
                    },
                }
            }
            j = j + 1;
        }
        Ok(())
    }

    /// Scans one source file line by line and records every feature name it
    /// uses; line numbers are counted from zero.
    fn scan_file(&mut self, file: &SourceFile, manifests: &Vec<ManifestFile>) -> (r: Result<
        (),
        String,
    >)
        requires
            old(self).wf(),
        ensures
            final(self).wf(),
            final(self)@.ignored_paths == old(self)@.ignored_paths,
            final(self)@.ignored_features == old(self)@.ignored_features,
            match scan_lines(
                old(self)@.mapping,
                manifest_paths(manifests_view(manifests@)),
                old(self)@.ignored_features,
                file@,
                0,
            ) {
                Some(m) => r is Ok && final(self)@.mapping == m,
                None => r is Err,
            },
    {
        let ghost mans = manifest_paths(manifests_view(manifests@));
        let ghost igf = self@.ignored_features;
        let ghost total = scan_lines(self@.mapping, mans, igf, file@, 0);
        let n = file.lines.len();
        let mut i: usize = 0;
        while i < n
            invariant
                i <= n,
                n == file.lines.len(),
                self.wf(),
                self@.ignored_paths == old(self)@.ignored_paths,
                self@.ignored_features == igf,
                igf == old(self)@.ignored_features,
                mans == manifest_paths(manifests_view(manifests@)),
                total == scan_lines(old(self)@.mapping, mans, igf, file@, 0),
                total == scan_lines(self@.mapping, mans, igf, file@, i as int),
            decreases n - i,
        {
            let names = extract_feature_names(file.lines[i].as_str()).unwrap();
            proof {
                assert(file@.lines[i as int] == file.lines@[i as int]@);
                assert(str_views(names@) == feature_names_of_line(file@.lines[i as int]));
            }
            let ghost mprev = self@.mapping;
            match self.add_names(&names, &file.path, i as u64, manifests) {
                Ok(()) => {},
                Err(e) => {
                    proof {
                        assert(scan_names(
                            mprev,
                            mans,
                            igf,
                            feature_names_of_line(file@.lines[i as int]),
                            0,
                            file@.path,
                            i as u64,
                        ) is None);
                        assert(scan_lines(mprev, mans, igf, file@, i as int) is None);
                    }
                    return Err(e);
                },
            }
            i = i + 1;
        }
        Ok(())
    }

    /// Finds the used features over the snapshot: walks the eligible source
    /// files, extracts the feature names of every line, and groups them by
    /// owning manifest. Fails when the scan root does not exist or some
    /// occurrence has no owning manifest.
    pub fn find_used_features(&mut self, tree: &FsTree) -> (r: Result<(), String>)
        requires
            old(self).wf(),
        ensures
            final(self).wf(),
            final(self)@.ignored_paths == old(self)@.ignored_paths,
            final(self)@.ignored_features == old(self)@.ignored_features,
            !tree.root_exists ==> (r matches Err(e) && e@ == "could not read the scan root"@
                && final(self)@ == old(self)@),
            tree.root_exists ==> match scan_files(
                old(self)@.mapping,
                tree@,
                old(self)@.ignored_paths,
                old(self)@.ignored_features,
                0,
            ) {
                Some(m) => r is Ok && final(self)@.mapping == m,
                None => r is Err,
            },
    {
        if !tree.root_exists {
            return Err(String::from_str("could not read the scan root"));
        }
        let ghost treev = tree@;
        let ghost igp = self@.ignored_paths;
        let ghost igf = self@.ignored_features;
        let ghost total = scan_files(self@.mapping, treev, igp, igf, 0);
        let n = tree.files.len();
        let mut k: usize = 0;
        while k < n
            invariant
                k <= n,
                n == tree.files.len(),
                self.wf(),
                self@.ignored_paths == igp,
                self@.ignored_features == igf,
                igp == old(self)@.ignored_paths,
                igf == old(self)@.ignored_features,
                treev == tree@,
                tree.root_exists,
                total == scan_files(old(self)@.mapping, treev, igp, igf, 0),
                total == scan_files(self@.mapping, treev, igp, igf, k as int),
            decreases n - k,
        {
            let file = &tree.files[k];
            let within = path_within_exec(file.path.as_str(), tree.root.as_str());
            let hidden = hidden_below_exec(tree.root.as_str(), file.path.as_str());
            let rust = is_rust_file_exec(file.path.as_str());
            let excl = self.is_ignored_path(file.path.as_str());
            proof {
                assert(file@ == treev.files[k as int]);
                assert((within && !hidden && rust && !excl) == eligible_file(
                    treev.root,
                    igp,
                    treev.files[k as int].path,
                ));
            }
            if within && !hidden && rust && !excl {
                let ghost mprev = self@.mapping;
                match self.scan_file(file, &tree.manifests) {
                    Ok(()) => {},
                    Err(e) => {
                        proof {
                            assert(eligible_file(treev.root, igp, treev.files[k as int].path));
                            assert(scan_lines(
                                mprev,
                                manifest_paths(treev.manifests),
                                igf,
                                treev.files[k as int],
                                0,
                            ) is None);
                            assert(scan_files(mprev, treev, igp, igf, k as int) is None);
                        }
                        return Err(e);
                    },
                }
            }
            k = k + 1;
        }
        Ok(())
    }

    /// Loads the exposed features of every manifest in the mapping from the
    /// snapshot's manifest texts, leaving ignored names out. A manifest
    /// whose text is missing or does not parse fails the whole run.
    pub fn find_exposed_features(&mut self, tree: &FsTree) -> (r: Result<(), String>)
        requires
            old(self).wf(),
        ensures
            final(self).wf(),
            final(self)@.ignored_paths == old(self)@.ignored_paths,
            final(self)@.ignored_features == old(self)@.ignored_features,
            match load_exposed(
                old(self)@.mapping,
                tree@.manifests,
                old(self)@.ignored_features,
                0,
            ) {
                Some(m) => r is Ok && final(self)@.mapping == m,
                None => r is Err,
            },
    {
        let ghost mv = tree@.manifests;
        let ghost igf = self@.ignored_features;
        let ghost total = load_exposed(self@.mapping, mv, igf, 0);
        let n = self.mapping.len();
        let mut k: usize = 0;
        while k < n
            invariant
                k <= n,
                n == self.mapping.len(),
                self.wf(),
                self@.ignored_paths == old(self)@.ignored_paths,
                self@.ignored_features == igf,
                igf == old(self)@.ignored_features,
                mv == tree@.manifests,
                total == load_exposed(old(self)@.mapping, mv, igf, 0),
                total == load_exposed(self@.mapping, mv, igf, k as int),
            decreases n - k,
        {
            let ghost mprev = self@.mapping;
            proof {
                assert(mprev[k as int].path == self.mapping@[k as int]@.path);
            }
            let text = match find_manifest_text(&tree.manifests, self.mapping[k].path.as_str()) {
                None => {
                    proof {
                        assert(manifest_text(mv, mprev[k as int].path) is None);
                        assert(load_exposed(mprev, mv, igf, k as int) is None);
                    }
                    return Err(String::from_str("could not read Cargo file"));
                },
                Some(t) => t,
            };
            let keys = match parse_manifest_features(text.as_str()) {
                Err(_) => {
                    proof {
                        assert(manifest_text(mv, mprev[k as int].path) == Some(text@));
                        assert(manifest_feature_names(text@) is None);
                        assert(load_exposed(mprev, mv, igf, k as int) is None);
                    }
                    return Err(String::from_str("could not parse Cargo file"));
                },
                Ok(ks) => ks,
            };
            let exposed = build_exposed(&keys, &self.ignored_features);
            let ghost mprev = self@.mapping;
            let mut ci = self.mapping.remove(k);
            ci.exposed_features = exposed;
            self.mapping.insert(k, ci);
            proof {
                assert(self@.mapping =~= mprev.update(
                    k as int,
                    CrateInfoV {
                        exposed: exposed_build(Seq::empty(), str_views(keys@), 0, igf),
                        ..mprev[k as int]
                    },
                ));
                assert forall|i: int| 0 <= i < self@.mapping.len() implies crate_wf(
                    #[trigger] self@.mapping[i],
                ) by {
                    if i != k as int {
                        assert(self@.mapping[i] == mprev[i]);
                    }
                }
            }
            k = k + 1;
        }
        Ok(())
    }

    /// Recomputes every crate's hidden set as `used - exposed`, by name.
    /// The step is idempotent: `used` and `exposed` are left untouched.
    pub fn find_hidden_features(&mut self)
        requires
            old(self).wf(),
        ensures
            final(self).wf(),
            final(self)@.ignored_paths == old(self)@.ignored_paths,
            final(self)@.ignored_features == old(self)@.ignored_features,
            final(self)@.mapping == compute_hidden(old(self)@.mapping),
    {
        let ghost m0 = self@.mapping;
        let n = self.mapping.len();
        let mut k: usize = 0;
        while k < n
            invariant
                k <= n,
                n == self.mapping.len(),
                m0 == old(self)@.mapping,
                mapping_wf(m0),
                self@.ignored_paths == old(self)@.ignored_paths,
                self@.ignored_features == old(self)@.ignored_features,
                forall|i: int|
                    0 <= i < k ==> #[trigger] self@.mapping[i] == compute_hidden_crate(m0[i]),
                forall|i: int| k <= i < n ==> #[trigger] self@.mapping[i] == m0[i],
            decreases n - k,
        {
            let ghost mprev = self@.mapping;
            let mut ci = self.mapping.remove(k);
            let hidden = build_diff(&ci.used_features, &ci.exposed_features);
            ci.hidden_features = hidden;
            self.mapping.insert(k, ci);
            proof {
                assert(self@.mapping =~= mprev.update(
                    k as int,
                    compute_hidden_crate(mprev[k as int]),
                ));
            }
            k = k + 1;
        }
        proof {
            assert(self@.mapping =~= compute_hidden(m0));
            assert forall|i: int| 0 <= i < self@.mapping.len() implies crate_wf(
                #[trigger] self@.mapping[i],
            ) by {
                lemma_feature_diff_from(m0[i].used, m0[i].exposed, 0);
            }
        }
    }

    /// Returns the outcome: success when no crate hides a feature, and the
    /// failing finding otherwise.
    pub fn check_hidden_features(&self) -> (r: Result<(), String>)
        ensures
            (r is Ok) == all_hidden_empty(self@.mapping),
            r is Err ==> r->Err_0@ == "Hidden features detected."@,
    {
        let mut empty = true;
        let n = self.mapping.len();
        let mut k: usize = 0;
        while k < n
            invariant
                k <= n,
                n == self.mapping.len(),
                empty == (forall|i: int|
                    0 <= i < k ==> (#[trigger] self@.mapping[i]).hidden.len() == 0),
            decreases n - k,
        {
            if self.mapping[k].hidden_features.len() > 0 {
                empty = false;
                proof {
                    assert(self@.mapping[k as int].hidden.len() > 0);
                }
            }
            k = k + 1;
        }
        if empty {
            Ok(())
        } else {
            Err(String::from_str("Hidden features detected."))
        }
    }

    /// Returns the names of all used features across the mapping, each name
    /// once, in the order they are held.
    pub fn hidden_features(&self) -> (r: Vec<String>)
        ensures
            str_views(r@) == used_names(Seq::empty(), self@.mapping, 0),
    {
        let ghost m = self@.mapping;
        let mut out: Vec<String> = Vec::new();
        proof {
            assert(str_views(out@) =~= Seq::<Seq<char>>::empty());
        }
        let ghost total = used_names(str_views(out@), m, 0);
        let n = self.mapping.len();
        let mut k: usize = 0;
        while k < n
            invariant
                k <= n,
                n == self.mapping.len(),
                m == self@.mapping,
                total == used_names(str_views(out@), m, k as int),
            decreases n - k,
        {
            let fs_len = self.mapping[k].used_features.len();
            let mut j: usize = 0;
            while j < fs_len
                invariant
                    j <= fs_len,
                    k < n,
                    n == self.mapping.len(),
                    m == self@.mapping,
                    fs_len == m[k as int].used.len(),
                    total == used_names(
                        used_names_in_crate(str_views(out@), m[k as int].used, j as int),
                        m,
                        k as int + 1,
                    ),
                decreases fs_len - j,
            {
                let name = self.mapping[k].used_features[j].name();
                proof {
                    assert(name@ == feature_name(m[k as int].used[j as int]));
                }
                let present = contains_str(&out, name);
                if !present {
                    let ghost before = str_views(out@);
                    let owned = String::from_str(name);
                    out.push(owned);
                    proof {
                        assert(str_views(out@) =~= before.push(name@));
                    }
                }
                j = j + 1;
            }
            k = k + 1;
        }
        proof {
            assert(total == str_views(out@));
        }
        out
    }

    /// Runs the whole pipeline over one snapshot: collect the used features,
    /// load the exposed ones, compute the hidden sets, and return the
    /// outcome.
    pub fn find_and_check(&mut self, tree: &FsTree) -> (r: Result<(), String>)
        requires
            old(self).wf(),
        ensures
            final(self).wf(),
            !tree.root_exists ==> r is Err,
            tree.root_exists ==> match scan_files(
                old(self)@.mapping,
                tree@,
                old(self)@.ignored_paths,
                old(self)@.ignored_features,
                0,
            ) {
                None => r is Err,
                Some(m1) => match load_exposed(
                    m1,
                    tree@.manifests,
                    old(self)@.ignored_features,
                    0,
                ) {
                    None => r is Err,
                    Some(m2) => final(self)@.mapping == compute_hidden(m2) && ((r is Ok)
                        == all_hidden_empty(compute_hidden(m2))),
                },
            },
    {
        match self.find_used_features(tree) {
            Err(e) => {
                return Err(e);
            },
            Ok(()) => {},
        }
        match self.find_exposed_features(tree) {
            Err(e) => {
                return Err(e);
            },
            Ok(()) => {},
        }
        self.find_hidden_features();
        self.check_hidden_features()
    }

    /// The console report: for every crate with hidden features, a header
    /// line with the manifest path, then one line per hidden feature with
    /// its name and a clickable locator.
    pub fn report_lines(&self) -> (r: Vec<String>)
        ensures
            str_views(r@) == report_from(self@.mapping, 0),
    {
        let ghost m = self@.mapping;
        let mut out: Vec<String> = Vec::new();
        proof {
            assert(str_views(out@) =~= Seq::<Seq<char>>::empty());
            assert(report_from(m, 0) =~= str_views(out@) + report_from(m, 0));
        }
        let n = self.mapping.len();
        let mut k: usize = 0;
        while k < n
            invariant
                k <= n,
                n == self.mapping.len(),
                m == self@.mapping,
                report_from(m, 0) == str_views(out@) + report_from(m, k as int),
            decreases n - k,
        {
            let ghost c = m[k as int];
            let hid_len = self.mapping[k].hidden_features.len();
            if hid_len > 0 {
                let mut header = String::from_str("path: ");
                header.append(self.mapping[k].path.as_str());
                proof {
                    assert(header@ == "path: "@ + c.path);
                }
                let ghost before = str_views(out@);
                out.push(header);
                proof {
                    assert(str_views(out@) =~= before.push("path: "@ + c.path));
                    assert(crate_report(c) == seq!["path: "@ + c.path] + hidden_lines_from(
                        c.hidden,
                        0,
                    ));
                    assert(report_from(m, 0) =~= str_views(out@) + hidden_lines_from(c.hidden, 0)
                        + report_from(m, k as int + 1));
                }
                let mut j: usize = 0;
                while j < hid_len
                    invariant
                        j <= hid_len,
                        k < n,
                        n == self.mapping.len(),
                        m == self@.mapping,
                        c == m[k as int],
                        hid_len == c.hidden.len(),
                        report_from(m, 0) == str_views(out@) + hidden_lines_from(
                            c.hidden,
                            j as int,
                        ) + report_from(m, k as int + 1),
                    decreases hid_len - j,
                {
                    let f = &self.mapping[k].hidden_features[j];
                    let ghost fv = c.hidden[j as int];
                    let mut line = String::from_str("\t");
                    line.append(f.name());
                    line.append("\t");
                    match f.clickable_path() {
                        Some(cp) => {
                            line.append(cp.as_str());
                        },
                        None => {
                            line.append(f.name());
                        },
                    }
                    proof {
                        reveal_strlit("\t");
                        assert("\t"@ =~= seq!['\t']);
                        assert(line@ =~= hidden_line(fv));
                    }
                    let ghost before2 = str_views(out@);
                    out.push(line);
                    proof {
                        assert(str_views(out@) =~= before2.push(hidden_line(fv)));
                        assert(hidden_lines_from(c.hidden, j as int) == seq![hidden_line(fv)]
                            + hidden_lines_from(c.hidden, j as int + 1));
                        assert(report_from(m, 0) =~= str_views(out@) + hidden_lines_from(
                            c.hidden,
                            j as int + 1,
                        ) + report_from(m, k as int + 1));
                    }
                    j = j + 1;
                }
                proof {
                    assert(hidden_lines_from(c.hidden, hid_len as int) =~= Seq::<
                        Seq<char>,
                    >::empty());
                    assert(report_from(m, 0) =~= str_views(out@) + report_from(m, k as int + 1));
                }
            } else {
                proof {
                    assert(crate_report(c) =~= Seq::<Seq<char>>::empty());
                    assert(report_from(m, k as int) =~= report_from(m, k as int + 1));
                }
            }
            k = k + 1;
        }
        proof {
            assert(report_from(m, n as int) =~= Seq::<Seq<char>>::empty());
            assert(str_views(out@) =~= str_views(out@) + report_from(m, n as int));
        }
        out
    }
}

/// Names of used features, collected crate by crate with one entry per
/// name: the names of `fs` from index `j` on, inserted into `acc`.
pub open spec fn insert_name(acc: Seq<Seq<char>>, n: Seq<char>) -> Seq<Seq<char>> {
    if acc.contains(n) {
        acc
    } else {
        acc.push(n)
    }
}

/// The names of `fs` from index `j` on, inserted into `acc` in order.
pub open spec fn used_names_in_crate(acc: Seq<Seq<char>>, fs: Seq<FeatureV>, j: int) -> Seq<
    Seq<char>,
>
    decreases fs.len() - j,
{
    if j < 0 || j >= fs.len() {
        acc
    } else {
        used_names_in_crate(insert_name(acc, feature_name(fs[j])), fs, j + 1)
    }
}

/// The names of all used features of the mapping from crate `k` on,
/// inserted into `acc` in order.
pub open spec fn used_names(acc: Seq<Seq<char>>, m: Seq<CrateInfoV>, k: int) -> Seq<Seq<char>>
    decreases m.len() - k,
{
    if k < 0 || k >= m.len() {
        acc
    } else {
        used_names(used_names_in_crate(acc, m[k].used, 0), m, k + 1)
    }
}

/// Whether the snapshot holds a manifest at path `p`.
fn manifests_have_path(ms: &Vec<ManifestFile>, p: &str) -> (r: bool)
    ensures
        r == manifest_paths(manifests_view(ms@)).contains(p@),
{
    let ghost paths = manifest_paths(manifests_view(ms@));
    let mut k: usize = 0;
    while k < ms.len()
        invariant
            k <= ms.len(),
            paths == manifest_paths(manifests_view(ms@)),
            forall|j: int| 0 <= j < k ==> #[trigger] paths[j] != p@,
        decreases ms.len() - k,
    {
        if str_eq(ms[k].path.as_str(), p) {
            proof {
                assert(paths[k as int] == p@);
            }
            return true;
        }
        k = k + 1;
    }
    proof {
        if paths.contains(p@) {
            let i = choose|i: int| 0 <= i < paths.len() && paths[i] == p@;
            assert(paths[i] != p@);
        }
    }
    false
}

} // verus!
