//! The laws the engine obeys, stated and proved over the spec-level folds
//! that the engine's contracts are written in.

use crate::feature::feature_name;
use crate::feature::FeatureV;
use crate::package::add_feature_spec;
use crate::package::compute_hidden;
use crate::package::compute_hidden_crate;
use crate::package::crate_index;
use crate::package::crate_insert_used;
use crate::package::eligible_file;
use crate::package::excluded_path;
use crate::package::exposed_build;
use crate::package::feature_diff_from;
use crate::package::crate_wf;
use crate::package::feature_insert;
use crate::package::has_crate;
use crate::package::has_name;
use crate::package::has_name_from;
use crate::package::insert_used;
use crate::package::lemma_crate_index_from;
use crate::package::lemma_feature_insert_unique;
use crate::package::lemma_feature_diff_from;
use crate::package::load_exposed;
use crate::package::manifest_feature_names;
use crate::package::manifest_text;
use crate::package::mapping_wf;
use crate::package::names_set;
use crate::package::names_unique;
use crate::package::scan_files;
use crate::package::scan_lines;
use crate::package::scan_names;
use crate::package::CrateInfoV;
use crate::package::FsTreeV;
use crate::paths::path_within;
use vstd::prelude::*;

verus! {

proof fn lemma_has_name_push(s: Seq<FeatureV>, f: FeatureV)
    ensures
        forall|n: Seq<char>|
            #[trigger] has_name(s.push(f), n) <==> has_name(s, n) || n == feature_name(f),
{
    let r = s.push(f);
    assert forall|n: Seq<char>| #[trigger]
        has_name(r, n) implies has_name(s, n) || n == feature_name(f) by {
        let i = choose|i: int| 0 <= i < r.len() && #[trigger] feature_name(r[i]) == n;
        if i < s.len() {
            assert(feature_name(s[i]) == n);
        }
    }
    assert forall|n: Seq<char>| has_name(s, n) || n == feature_name(f) implies #[trigger] has_name(
        r,
        n,
    ) by {
        if has_name(s, n) {
            let i = choose|i: int| 0 <= i < s.len() && #[trigger] feature_name(s[i]) == n;
            assert(feature_name(r[i]) == n);
        } else {
            assert(feature_name(r[s.len() as int]) == n);
        }
    }
}

// ---------------------------------------------------------------------------
// Insertion is keyed by name.
// ---------------------------------------------------------------------------
/// Inserting used features with two distinct fresh names into the same set
/// yields two entries.
pub proof fn lemma_insert_distinct_names(s: Seq<FeatureV>, f1: FeatureV, f2: FeatureV)
    requires
        !has_name(s, feature_name(f1)),
        !has_name(s, feature_name(f2)),
        feature_name(f1) != feature_name(f2),
    ensures
        feature_insert(feature_insert(s, f1), f2) == s.push(f1).push(f2),
        feature_insert(feature_insert(s, f1), f2).len() == s.len() + 2,
{
    lemma_has_name_push(s, f1);
}

/// Inserting a second feature whose name is already present is a no-op: one
/// entry results, and the first-seen representative survives.
pub proof fn lemma_insert_same_name(s: Seq<FeatureV>, f1: FeatureV, f2: FeatureV)
    requires
        !has_name(s, feature_name(f1)),
        feature_name(f2) == feature_name(f1),
    ensures
        feature_insert(feature_insert(s, f1), f2) == s.push(f1),
        feature_insert(feature_insert(s, f1), f2).len() == s.len() + 1,
        feature_insert(feature_insert(s, f1), f2)[s.len() as int] == f1,
{
    lemma_has_name_push(s, f1);
    assert(feature_name(s.push(f1)[s.len() as int]) == feature_name(f1));
}

/// The used set recorded under manifest `mp`: empty when the mapping holds
/// no record for it.
pub open spec fn used_of(m: Seq<CrateInfoV>, mp: Seq<char>) -> Seq<FeatureV> {
    if has_crate(m, mp) {
        m[crate_index(m, mp)].used
    } else {
        Seq::empty()
    }
}

proof fn lemma_insert_used_wf(m: Seq<CrateInfoV>, mp: Seq<char>, f: FeatureV)
    requires
        mapping_wf(m),
    ensures
        mapping_wf(insert_used(m, mp, f)),
{
    lemma_crate_index_from(m, mp, 0);
    let i = crate_index(m, mp);
    let m2 = insert_used(m, mp, f);
    if i == -1 {
        assert forall|a: int| 0 <= a < m2.len() implies crate_wf(#[trigger] m2[a]) by {
            if a < m.len() {
                assert(m2[a] == m[a]);
            } else {
                assert(m2[a].used =~= seq![f]);
                assert(names_unique(m2[a].used));
                assert(names_unique(m2[a].exposed));
                assert(names_unique(m2[a].hidden));
            }
        }
        assert forall|a: int, b: int| 0 <= a < b < m2.len() implies (#[trigger] m2[a].path) != (
        #[trigger] m2[b].path) by {
            if b < m.len() {
                assert(m2[a] == m[a] && m2[b] == m[b]);
            } else {
                assert(m2[a] == m[a] && m2[b].path == mp);
            }
        }
    } else {
        lemma_feature_insert_unique(m[i].used, f);
        assert forall|a: int| 0 <= a < m2.len() implies crate_wf(#[trigger] m2[a]) by {
            if a != i {
                assert(m2[a] == m[a]);
            } else {
                assert(m2[a] == crate_insert_used(m[i], f));
            }
        }
        assert forall|a: int, b: int| 0 <= a < b < m2.len() implies (#[trigger] m2[a].path) != (
        #[trigger] m2[b].path) by {
            assert(m2[a].path == m[a].path && m2[b].path == m[b].path);
        }
    }
}

/// Recording one used feature under manifest `mp` inserts it, by name, into
/// that manifest's used set, and leaves every other manifest's used set as
/// it was.
pub proof fn lemma_insert_used_is_insert_by_name(m: Seq<CrateInfoV>, mp: Seq<char>, f: FeatureV)
    requires
        mapping_wf(m),
    ensures
        used_of(insert_used(m, mp, f), mp) == feature_insert(used_of(m, mp), f),
        forall|p: Seq<char>|
            p != mp ==> #[trigger] used_of(insert_used(m, mp, f), p) == used_of(m, p),
{
    lemma_crate_index_from(m, mp, 0);
    let i = crate_index(m, mp);
    let m2 = insert_used(m, mp, f);
    lemma_crate_index_from(m2, mp, 0);
    let r = crate_index(m2, mp);
    if i == -1 {
        assert(m2[m.len() as int].path == mp);
        assert(r != -1);
        assert(0 <= r < m2.len() && m2[r].path == mp);
        if r < m.len() {
            assert(m2[r] == m[r]);
            assert(m[r].path != mp);
        }
        assert(r == m.len() as int);
        assert(used_of(m2, mp) =~= seq![f]);
        if has_name(used_of(m, mp), feature_name(f)) {
            let w = choose|w: int|
                0 <= w < used_of(m, mp).len() && #[trigger] feature_name(used_of(m, mp)[w])
                    == feature_name(f);
        }
        assert(feature_insert(used_of(m, mp), f) =~= Seq::<FeatureV>::empty().push(f));
        assert(used_of(m2, mp) =~= feature_insert(used_of(m, mp), f));
        assert forall|p: Seq<char>| p != mp implies #[trigger] used_of(m2, p) == used_of(
            m,
            p,
        ) by {
            lemma_crate_index_from(m, p, 0);
            lemma_crate_index_from(m2, p, 0);
            let ip = crate_index(m, p);
            let ip2 = crate_index(m2, p);
            if ip == -1 {
                if ip2 != -1 {
                    assert(0 <= ip2 < m2.len() && m2[ip2].path == p);
                    if ip2 < m.len() {
                        assert(m2[ip2] == m[ip2]);
                        assert(m[ip2].path != p);
                    } else {
                        assert(m2[ip2].path == mp);
                    }
                }
            } else {
                assert(m2[ip] == m[ip]);
                assert(m2[ip].path == p);
                assert(ip2 != -1);
                if ip2 < ip {
                    assert(m2[ip2].path == p);
                    assert(m2[ip2] == m[ip2]);
                    assert(m[ip2].path != p);
                }
                if ip2 > ip {
                    assert(m2[ip].path != p);
                }
                assert(ip2 == ip);
            }
        }
    } else {
        assert(forall|j: int| 0 <= j < m2.len() ==> (#[trigger] m2[j]).path == m[j].path);
        assert(m2[i].path == mp);
        assert(r != -1);
        if r < i {
            assert(m2[r].path == mp);
            assert(m[r].path == mp);
        }
        if r > i {
            assert(m2[i].path != mp);
        }
        assert(r == i);
        assert(used_of(m2, mp) == feature_insert(m[i].used, f));
        assert(used_of(m, mp) == m[i].used);
        assert forall|p: Seq<char>| p != mp implies #[trigger] used_of(m2, p) == used_of(
            m,
            p,
        ) by {
            lemma_crate_index_from(m, p, 0);
            lemma_crate_index_from(m2, p, 0);
            let ip = crate_index(m, p);
            let ip2 = crate_index(m2, p);
            if ip == -1 {
                if ip2 != -1 {
                    assert(m2[ip2].path == p && m[ip2].path != p);
                }
            } else {
                assert(m[ip].path == p);
                assert(m2[ip].path == p);
                assert(ip2 != -1);
                if ip2 < ip {
                    assert(m2[ip2].path == p && m[ip2].path != p);
                }
                if ip2 > ip {
                    assert(m2[ip].path != p);
                }
                assert(ip2 == ip);
                assert(ip != i);
                assert(m2[ip] == m[ip]);
            }
        }
    }
}

/// Two used features with distinct, not yet recorded names land as two
/// entries in the same manifest's used set; a second feature with an
/// already recorded name adds nothing, and the first-seen representative
/// survives.
pub proof fn lemma_same_manifest_insert_counts(
    m: Seq<CrateInfoV>,
    mp: Seq<char>,
    f1: FeatureV,
    f2: FeatureV,
)
    requires
        mapping_wf(m),
        !has_name(used_of(m, mp), feature_name(f1)),
    ensures
        feature_name(f2) != feature_name(f1) && !has_name(used_of(m, mp), feature_name(f2))
            ==> used_of(insert_used(insert_used(m, mp, f1), mp, f2), mp).len() == used_of(
            m,
            mp,
        ).len() + 2,
        feature_name(f2) == feature_name(f1) ==> used_of(
            insert_used(insert_used(m, mp, f1), mp, f2),
            mp,
        ) == used_of(m, mp).push(f1),
{
    let u = used_of(m, mp);
    let m1 = insert_used(m, mp, f1);
    lemma_insert_used_is_insert_by_name(m, mp, f1);
    lemma_insert_used_wf(m, mp, f1);
    lemma_insert_used_is_insert_by_name(m1, mp, f2);
    lemma_has_name_push(u, f1);
    assert(used_of(m1, mp) == u.push(f1));
    if feature_name(f2) == feature_name(f1) {
        assert(has_name(u.push(f1), feature_name(f2)));
        assert(used_of(insert_used(m1, mp, f2), mp) == u.push(f1));
    } else if !has_name(u, feature_name(f2)) {
        assert(!has_name(u.push(f1), feature_name(f2)));
        assert(used_of(insert_used(m1, mp, f2), mp) == u.push(f1).push(f2));
    }
}

// ---------------------------------------------------------------------------
// Recomputing the hidden sets is idempotent.
// ---------------------------------------------------------------------------
/// `compute_hidden` is idempotent: with `used` and `exposed` untouched, a
/// second run yields the same mapping.
pub proof fn lemma_compute_hidden_idempotent(m: Seq<CrateInfoV>)
    ensures
        compute_hidden(compute_hidden(m)) == compute_hidden(m),
{
    let a = compute_hidden(m);
    let b = compute_hidden(a);
    assert forall|i: int| 0 <= i < m.len() implies #[trigger] b[i] == a[i] by {
        assert(a[i] == compute_hidden_crate(m[i]));
        assert(b[i] == compute_hidden_crate(a[i]));
        assert(a[i].used == m[i].used && a[i].exposed == m[i].exposed);
        assert(b[i] =~= a[i]);
    }
    assert(b =~= a);
}

// ---------------------------------------------------------------------------
// The hidden set is exactly the difference `used - exposed`.
// ---------------------------------------------------------------------------
/// A crate's recomputed hidden set holds exactly the names that are used
/// and not exposed: `hidden` is a subset of `used` and disjoint from
/// `exposed`, and no used, unexposed name is missing from it.
pub proof fn lemma_hidden_is_difference(c: CrateInfoV)
    ensures
        forall|n: Seq<char>|
            #[trigger] has_name(compute_hidden_crate(c).hidden, n) <==> (has_name(c.used, n)
                && !has_name(c.exposed, n)),
        names_set(compute_hidden_crate(c).hidden) =~= names_set(c.used).difference(
            names_set(c.exposed),
        ),
{
    lemma_feature_diff_from(c.used, c.exposed, 0);
    assert forall|n: Seq<char>| #[trigger]
        has_name_from(c.used, 0, n) == has_name(c.used, n) by {
        if has_name_from(c.used, 0, n) {
            let i = choose|i: int| 0 <= i < c.used.len() && #[trigger] feature_name(c.used[i]) == n;
            assert(has_name(c.used, n));
        }
        if has_name(c.used, n) {
            let i = choose|i: int| 0 <= i < c.used.len() && #[trigger] feature_name(c.used[i]) == n;
            assert(has_name_from(c.used, 0, n));
        }
    }
}

// ---------------------------------------------------------------------------
// Feature exclusion is absolute.
// ---------------------------------------------------------------------------
/// No feature named `n` stands in any of the mapping's sets.
pub open spec fn name_absent(m: Seq<CrateInfoV>, n: Seq<char>) -> bool {
    forall|i: int|
        0 <= i < m.len() ==> {
            &&& !has_name((#[trigger] m[i]).used, n)
            &&& !has_name(m[i].exposed, n)
            &&& !has_name(m[i].hidden, n)
        }
}

proof fn lemma_insert_used_absent(m: Seq<CrateInfoV>, mp: Seq<char>, f: FeatureV, n: Seq<char>)
    requires
        name_absent(m, n),
        feature_name(f) != n,
    ensures
        name_absent(insert_used(m, mp, f), n),
{
    lemma_crate_index_from(m, mp, 0);
    let i = crate_index(m, mp);
    let m2 = insert_used(m, mp, f);
    if i == -1 {
        assert forall|k: int| 0 <= k < m2.len() implies {
            &&& !has_name((#[trigger] m2[k]).used, n)
            &&& !has_name(m2[k].exposed, n)
            &&& !has_name(m2[k].hidden, n)
        } by {
            if k < m.len() {
                assert(m2[k] == m[k]);
            } else {
                assert(m2[k].used =~= seq![f]);
                if has_name(m2[k].used, n) {
                    let w = choose|w: int|
                        0 <= w < m2[k].used.len() && #[trigger] feature_name(m2[k].used[w]) == n;
                    assert(m2[k].used[w] == f);
                }
                assert(!has_name(m2[k].exposed, n));
                assert(!has_name(m2[k].hidden, n));
            }
        }
    } else {
        lemma_has_name_push(m[i].used, f);
        assert forall|k: int| 0 <= k < m2.len() implies {
            &&& !has_name((#[trigger] m2[k]).used, n)
            &&& !has_name(m2[k].exposed, n)
            &&& !has_name(m2[k].hidden, n)
        } by {
            if k != i {
                assert(m2[k] == m[k]);
            } else {
                assert(m2[k] == crate_insert_used(m[i], f));
            }
        }
    }
}

proof fn lemma_add_feature_absent(
    m: Seq<CrateInfoV>,
    mans: Seq<Seq<char>>,
    f: FeatureV,
    n: Seq<char>,
)
    requires
        name_absent(m, n),
        feature_name(f) != n,
        add_feature_spec(m, mans, f) is Some,
    ensures
        name_absent(add_feature_spec(m, mans, f)->Some_0, n),
{
    match f {
        FeatureV::Exposed { .. } => {},
        FeatureV::Used { name, path, line_number } => {
            match crate::paths::spec_parent(path) {
                None => {},
                Some(d) => {
                    match crate::package::resolve_spec(m, mans, d) {
                        None => {},
                        Some(mp) => {
                            lemma_insert_used_absent(m, mp, f, n);
                        },
                    }
                },
            }
        },
    }
}

proof fn lemma_scan_names_absent(
    m: Seq<CrateInfoV>,
    mans: Seq<Seq<char>>,
    igf: Seq<Seq<char>>,
    names: Seq<Seq<char>>,
    j: int,
    fpath: Seq<char>,
    ln: u64,
    n: Seq<char>,
)
    requires
        0 <= j,
        name_absent(m, n),
        igf.contains(n),
        scan_names(m, mans, igf, names, j, fpath, ln) is Some,
    ensures
        name_absent(scan_names(m, mans, igf, names, j, fpath, ln)->Some_0, n),
    decreases names.len() - j,
{
    if j < names.len() {
        if igf.contains(names[j]) {
            lemma_scan_names_absent(m, mans, igf, names, j + 1, fpath, ln, n);
        } else {
            let f = FeatureV::Used { name: names[j], path: fpath, line_number: ln };
            assert(feature_name(f) != n);
            let m2 = add_feature_spec(m, mans, f)->Some_0;
            lemma_add_feature_absent(m, mans, f, n);
            lemma_scan_names_absent(m2, mans, igf, names, j + 1, fpath, ln, n);
        }
    }
}

proof fn lemma_scan_lines_absent(
    m: Seq<CrateInfoV>,
    mans: Seq<Seq<char>>,
    igf: Seq<Seq<char>>,
    f: crate::package::SourceFileV,
    i: int,
    n: Seq<char>,
)
    requires
        0 <= i,
        name_absent(m, n),
        igf.contains(n),
        scan_lines(m, mans, igf, f, i) is Some,
    ensures
        name_absent(scan_lines(m, mans, igf, f, i)->Some_0, n),
    decreases f.lines.len() - i,
{
    if i < f.lines.len() {
        let names = crate::text::feature_names_of_line(f.lines[i]);
        let m2 = scan_names(m, mans, igf, names, 0, f.path, i as u64)->Some_0;
        lemma_scan_names_absent(m, mans, igf, names, 0, f.path, i as u64, n);
        lemma_scan_lines_absent(m2, mans, igf, f, i + 1, n);
    }
}

proof fn lemma_scan_files_absent(
    m: Seq<CrateInfoV>,
    tree: FsTreeV,
    igp: Seq<Seq<char>>,
    igf: Seq<Seq<char>>,
    k: int,
    n: Seq<char>,
)
    requires
        0 <= k,
        name_absent(m, n),
        igf.contains(n),
        scan_files(m, tree, igp, igf, k) is Some,
    ensures
        name_absent(scan_files(m, tree, igp, igf, k)->Some_0, n),
    decreases tree.files.len() - k,
{
    if k < tree.files.len() {
        if eligible_file(tree.root, igp, tree.files[k].path) {
            let mans = crate::package::manifest_paths(tree.manifests);
            let m2 = scan_lines(m, mans, igf, tree.files[k], 0)->Some_0;
            lemma_scan_lines_absent(m, mans, igf, tree.files[k], 0, n);
            lemma_scan_files_absent(m2, tree, igp, igf, k + 1, n);
        } else {
            lemma_scan_files_absent(m, tree, igp, igf, k + 1, n);
        }
    }
}

proof fn lemma_exposed_build_absent(
    acc: Seq<FeatureV>,
    keys: Seq<Seq<char>>,
    j: int,
    igf: Seq<Seq<char>>,
    n: Seq<char>,
)
    requires
        0 <= j,
        !has_name(acc, n),
        igf.contains(n),
    ensures
        !has_name(exposed_build(acc, keys, j, igf), n),
    decreases keys.len() - j,
{
    if j < keys.len() {
        if igf.contains(keys[j]) {
            lemma_exposed_build_absent(acc, keys, j + 1, igf, n);
        } else {
            let f = FeatureV::Exposed { name: keys[j] };
            lemma_has_name_push(acc, f);
            lemma_exposed_build_absent(feature_insert(acc, f), keys, j + 1, igf, n);
        }
    }
}

proof fn lemma_load_exposed_absent(
    m: Seq<CrateInfoV>,
    mans: Seq<crate::package::ManifestFileV>,
    igf: Seq<Seq<char>>,
    k: int,
    n: Seq<char>,
)
    requires
        0 <= k,
        name_absent(m, n),
        igf.contains(n),
        load_exposed(m, mans, igf, k) is Some,
    ensures
        name_absent(load_exposed(m, mans, igf, k)->Some_0, n),
    decreases m.len() - k,
{
    if 0 <= k < m.len() {
        match manifest_text(mans, m[k].path) {
            None => {},
            Some(text) => {
                match manifest_feature_names(text) {
                    None => {},
                    Some(keys) => {
                        let e = exposed_build(Seq::empty(), keys, 0, igf);
                        assert(!has_name(Seq::<FeatureV>::empty(), n));
                        lemma_exposed_build_absent(Seq::empty(), keys, 0, igf, n);
                        let m2 = m.update(k, CrateInfoV { exposed: e, ..m[k] });
                        assert forall|i: int| 0 <= i < m2.len() implies {
                            &&& !has_name((#[trigger] m2[i]).used, n)
                            &&& !has_name(m2[i].exposed, n)
                            &&& !has_name(m2[i].hidden, n)
                        } by {
                            if i != k {
                                assert(m2[i] == m[i]);
                            }
                        }
                        lemma_load_exposed_absent(m2, mans, igf, k + 1, n);
                    },
                }
            },
        }
    }
}

proof fn lemma_compute_hidden_absent(m: Seq<CrateInfoV>, n: Seq<char>)
    requires
        name_absent(m, n),
    ensures
        name_absent(compute_hidden(m), n),
{
    let a = compute_hidden(m);
    assert forall|i: int| 0 <= i < a.len() implies {
        &&& !has_name((#[trigger] a[i]).used, n)
        &&& !has_name(a[i].exposed, n)
        &&& !has_name(a[i].hidden, n)
    } by {
        assert(a[i] == compute_hidden_crate(m[i]));
        lemma_feature_diff_from(m[i].used, m[i].exposed, 0);
        if has_name(a[i].hidden, n) {
            assert(has_name_from(m[i].used, 0, n));
            let w = choose|w: int|
                0 <= w < m[i].used.len() && #[trigger] feature_name(m[i].used[w]) == n;
            assert(has_name(m[i].used, n));
        }
    }
}

/// Exclusion is absolute: an ignored feature name never appears in any
/// crate's used, exposed or hidden set, however often the code references
/// it or a manifest declares it.
pub proof fn lemma_exclusion_is_absolute(
    m0: Seq<CrateInfoV>,
    tree: FsTreeV,
    igp: Seq<Seq<char>>,
    igf: Seq<Seq<char>>,
    n: Seq<char>,
    m1: Seq<CrateInfoV>,
    m2: Seq<CrateInfoV>,
)
    requires
        igf.contains(n),
        name_absent(m0, n),
        scan_files(m0, tree, igp, igf, 0) == Some(m1),
        load_exposed(m1, tree.manifests, igf, 0) == Some(m2),
    ensures
        name_absent(compute_hidden(m2), n),
{
    lemma_scan_files_absent(m0, tree, igp, igf, 0, n);
    lemma_load_exposed_absent(m1, tree.manifests, igf, 0, n);
    lemma_compute_hidden_absent(m2, n);
}

// ---------------------------------------------------------------------------
// Path exclusion is absolute.
// ---------------------------------------------------------------------------
/// No used feature of any crate was recorded for a file that is `base` or
/// descends from it.
pub open spec fn used_paths_outside(m: Seq<CrateInfoV>, base: Seq<char>) -> bool {
    forall|i: int, j: int|
        0 <= i < m.len() && 0 <= j < m[i].used.len() ==> match #[trigger] m[i].used[j] {
            FeatureV::Used { path, .. } => !path_within(path, base),
            FeatureV::Exposed { .. } => true,
        }
}

proof fn lemma_insert_used_outside(m: Seq<CrateInfoV>, mp: Seq<char>, f: FeatureV, base: Seq<char>)
    requires
        used_paths_outside(m, base),
        f matches FeatureV::Used { path, .. } ==> !path_within(path, base),
    ensures
        used_paths_outside(insert_used(m, mp, f), base),
{
    lemma_crate_index_from(m, mp, 0);
    let i = crate_index(m, mp);
    let m2 = insert_used(m, mp, f);
    assert forall|a: int, b: int| 0 <= a < m2.len() && 0 <= b < m2[a].used.len() implies match
        #[trigger] m2[a].used[b] {
        FeatureV::Used { path, .. } => !path_within(path, base),
        FeatureV::Exposed { .. } => true,
    } by {
        if i == -1 {
            if a < m.len() {
                assert(m2[a] == m[a]);
            } else {
                assert(m2[a].used =~= seq![f]);
                assert(m2[a].used[b] == f);
            }
        } else {
            if a != i {
                assert(m2[a] == m[a]);
            } else {
                assert(m2[a] == crate_insert_used(m[i], f));
                if b < m[i].used.len() {
                    assert(m2[a].used[b] == m[i].used[b]);
                } else {
                    assert(m2[a].used[b] == f);
                }
            }
        }
    }
}

proof fn lemma_add_feature_outside(
    m: Seq<CrateInfoV>,
    mans: Seq<Seq<char>>,
    f: FeatureV,
    base: Seq<char>,
)
    requires
        used_paths_outside(m, base),
        f matches FeatureV::Used { path, .. } ==> !path_within(path, base),
        add_feature_spec(m, mans, f) is Some,
    ensures
        used_paths_outside(add_feature_spec(m, mans, f)->Some_0, base),
{
    match f {
        FeatureV::Exposed { .. } => {},
        FeatureV::Used { name, path, line_number } => {
            match crate::paths::spec_parent(path) {
                None => {},
                Some(d) => {
                    match crate::package::resolve_spec(m, mans, d) {
                        None => {},
                        Some(mp) => {
                            lemma_insert_used_outside(m, mp, f, base);
                        },
                    }
                },
            }
        },
    }
}

proof fn lemma_scan_names_outside(
    m: Seq<CrateInfoV>,
    mans: Seq<Seq<char>>,
    igf: Seq<Seq<char>>,
    names: Seq<Seq<char>>,
    j: int,
    fpath: Seq<char>,
    ln: u64,
    base: Seq<char>,
)
    requires
        0 <= j,
        used_paths_outside(m, base),
        !path_within(fpath, base),
        scan_names(m, mans, igf, names, j, fpath, ln) is Some,
    ensures
        used_paths_outside(scan_names(m, mans, igf, names, j, fpath, ln)->Some_0, base),
    decreases names.len() - j,
{
    if j < names.len() {
        if igf.contains(names[j]) {
            lemma_scan_names_outside(m, mans, igf, names, j + 1, fpath, ln, base);
        } else {
            let f = FeatureV::Used { name: names[j], path: fpath, line_number: ln };
            let m2 = add_feature_spec(m, mans, f)->Some_0;
            lemma_add_feature_outside(m, mans, f, base);
            lemma_scan_names_outside(m2, mans, igf, names, j + 1, fpath, ln, base);
        }
    }
}

proof fn lemma_scan_lines_outside(
    m: Seq<CrateInfoV>,
    mans: Seq<Seq<char>>,
    igf: Seq<Seq<char>>,
    f: crate::package::SourceFileV,
    i: int,
    base: Seq<char>,
)
    requires
        0 <= i,
        used_paths_outside(m, base),
        !path_within(f.path, base),
        scan_lines(m, mans, igf, f, i) is Some,
    ensures
        used_paths_outside(scan_lines(m, mans, igf, f, i)->Some_0, base),
    decreases f.lines.len() - i,
{
    if i < f.lines.len() {
        let names = crate::text::feature_names_of_line(f.lines[i]);
        let m2 = scan_names(m, mans, igf, names, 0, f.path, i as u64)->Some_0;
        lemma_scan_names_outside(m, mans, igf, names, 0, f.path, i as u64, base);
        lemma_scan_lines_outside(m2, mans, igf, f, i + 1, base);
    }
}

proof fn lemma_scan_files_outside(
    m: Seq<CrateInfoV>,
    tree: FsTreeV,
    igp: Seq<Seq<char>>,
    igf: Seq<Seq<char>>,
    k: int,
    base: Seq<char>,
)
    requires
        0 <= k,
        used_paths_outside(m, base),
        igp.contains(base),
        scan_files(m, tree, igp, igf, k) is Some,
    ensures
        used_paths_outside(scan_files(m, tree, igp, igf, k)->Some_0, base),
    decreases tree.files.len() - k,
{
    if k < tree.files.len() {
        if eligible_file(tree.root, igp, tree.files[k].path) {
            assert(!path_within(tree.files[k].path, base)) by {
                if path_within(tree.files[k].path, base) {
                    let w = choose|w: int| 0 <= w < igp.len() && igp[w] == base;
                    assert(path_within(tree.files[k].path, igp[w]));
                    assert(excluded_path(igp, tree.files[k].path));
                }
            }
            let mans = crate::package::manifest_paths(tree.manifests);
            let m2 = scan_lines(m, mans, igf, tree.files[k], 0)->Some_0;
            lemma_scan_lines_outside(m, mans, igf, tree.files[k], 0, base);
            lemma_scan_files_outside(m2, tree, igp, igf, k + 1, base);
        } else {
            lemma_scan_files_outside(m, tree, igp, igf, k + 1, base);
        }
    }
}

/// Path exclusion is absolute: no used feature is ever recorded for a
/// source file whose path is, or descends from, an ignored path.
pub proof fn lemma_path_exclusion_is_absolute(
    m0: Seq<CrateInfoV>,
    tree: FsTreeV,
    igp: Seq<Seq<char>>,
    igf: Seq<Seq<char>>,
    base: Seq<char>,
    m1: Seq<CrateInfoV>,
)
    requires
        igp.contains(base),
        used_paths_outside(m0, base),
        scan_files(m0, tree, igp, igf, 0) == Some(m1),
    ensures
        used_paths_outside(m1, base),
{
    lemma_scan_files_outside(m0, tree, igp, igf, 0, base);
}

} // verus!
