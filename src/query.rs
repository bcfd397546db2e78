use vstd::prelude::*;
use crate::model::{
    kind_of_code, CrateRow, DependencyKind, DependencyRow, DependencyType, Error, Snapshot,
    VersionRow,
};
use crate::text::{text_eq, text_less, text_lt};

verus! {

/// Position of the first package row, at or after `j`, whose id is `id`.
pub open spec fn crate_from(crates: Seq<CrateRow>, id: Seq<char>, j: int) -> Option<int>
    decreases crates.len() - j,
{
    if j >= crates.len() {
        None
    } else if crates[j].id@ == id {
        Some(j)
    } else {
        crate_from(crates, id, j + 1)
    }
}

/// Position of the package row that an id resolves to (the first with that id).
pub open spec fn crate_of_id(db: &Snapshot, id: Seq<char>) -> Option<int> {
    crate_from(db.crates@, id, 0)
}

pub proof fn lemma_crate_from_range(crates: Seq<CrateRow>, id: Seq<char>, j: int)
    requires
        0 <= j,
    ensures
        match crate_from(crates, id, j) {
            Some(k) => j <= k < crates.len() && crates[k].id@ == id,
            None => true,
        },
    decreases crates.len() - j,
{
    if j < crates.len() && crates[j].id@ != id {
        lemma_crate_from_range(crates, id, j + 1);
    }
}

pub(crate) fn find_crate(db: &Snapshot, id: &str) -> (r: Option<usize>)
    ensures
        match r {
            Some(k) => crate_of_id(db, id@) == Some(k as int) && k < db.crates@.len(),
            None => crate_of_id(db, id@) is None,
        },
{
    let mut j: usize = 0;
    while j < db.crates.len()
        invariant
            j <= db.crates@.len(),
            crate_of_id(db, id@) == crate_from(db.crates@, id@, j as int),
        decreases db.crates@.len() - j,
    {
        if text_eq(db.crates[j].id.as_str(), id) {
            return Some(j);
        }
        j = j + 1;
    }
    None
}

/// Whether version row `k` belongs to the package called `name`.
pub open spec fn version_of_named(db: &Snapshot, k: int, name: Seq<char>) -> bool {
    match crate_of_id(db, db.versions@[k].crate_id@) {
        Some(j) => db.crates@[j].name@ == name,
        None => false,
    }
}

pub(crate) fn belongs_to(db: &Snapshot, k: usize, name: &str) -> (r: bool)
    requires
        k < db.versions@.len(),
    ensures
        r == version_of_named(db, k as int, name@),
{
    match find_crate(db, db.versions[k].crate_id.as_str()) {
        Some(j) => text_eq(db.crates[j].name.as_str(), name),
        None => false,
    }
}

/// The (id, number) pairs of the versions of `name` among the first `n` version rows,
/// in the snapshot's order.
pub open spec fn versions_upto(db: &Snapshot, name: Seq<char>, n: int) -> Seq<(String, String)>
    decreases n,
{
    if n <= 0 {
        seq![]
    } else if version_of_named(db, n - 1, name) {
        versions_upto(db, name, n - 1).push(
            (db.versions@[n - 1].id, db.versions@[n - 1].num),
        )
    } else {
        versions_upto(db, name, n - 1)
    }
}

/// Position of the latest version of `name` among the first `n` version rows: the one
/// whose number is greatest in lexicographic order, the earliest of equals.
pub open spec fn latest_upto(db: &Snapshot, name: Seq<char>, n: int) -> Option<int>
    decreases n,
{
    if n <= 0 {
        None
    } else {
        let prev = latest_upto(db, name, n - 1);
        if version_of_named(db, n - 1, name) && match prev {
            Some(m) => text_lt(db.versions@[m].num@, db.versions@[n - 1].num@),
            None => true,
        } {
            Some(n - 1)
        } else {
            prev
        }
    }
}

/// All versions of the package called `name`.
pub open spec fn all_versions(db: &Snapshot, name: Seq<char>) -> Seq<(String, String)> {
    versions_upto(db, name, db.versions@.len() as int)
}

/// Position of the latest version of the package called `name`.
pub open spec fn latest_version(db: &Snapshot, name: Seq<char>) -> Option<int> {
    latest_upto(db, name, db.versions@.len() as int)
}

/// Where `x` goes, from position `j` on, in a list ordered from the greatest version
/// number down: before the first entry whose number is smaller, after all the others.
pub open spec fn slot_from(s: Seq<(String, String)>, x: (String, String), j: int) -> int
    decreases s.len() - j,
{
    if j >= s.len() {
        s.len() as int
    } else if text_lt(s[j].1@, x.1@) {
        j
    } else {
        slot_from(s, x, j + 1)
    }
}

pub proof fn lemma_slot_from_range(s: Seq<(String, String)>, x: (String, String), j: int)
    requires
        0 <= j <= s.len(),
    ensures
        j <= slot_from(s, x, j) <= s.len(),
    decreases s.len() - j,
{
    if j < s.len() {
        lemma_slot_from_range(s, x, j + 1);
    }
}

/// The entries of `s` ordered from the greatest version number down; entries with equal
/// numbers keep their order in `s`.
pub open spec fn sort_desc(s: Seq<(String, String)>) -> Seq<(String, String)>
    decreases s.len(),
{
    if s.len() == 0 {
        s
    } else {
        let t = sort_desc(s.drop_last());
        t.insert(slot_from(t, s.last(), 0), s.last())
    }
}

pub proof fn lemma_sort_desc_contains(s: Seq<(String, String)>)
    ensures
        sort_desc(s).len() == s.len(),
        forall|x: (String, String)| #[trigger] sort_desc(s).contains(x) <==> s.contains(x),
    decreases s.len(),
{
    if s.len() > 0 {
        let p = s.drop_last();
        let a = s.last();
        let t = sort_desc(p);
        lemma_sort_desc_contains(p);
        lemma_slot_from_range(t, a, 0);
        let k = slot_from(t, a, 0);
        t.insert_ensures(k, a);
        let r = t.insert(k, a);
        assert forall|x: (String, String)| #[trigger] r.contains(x) <==> s.contains(x) by {
            if r.contains(x) {
                let w = choose|w: int| 0 <= w < r.len() && r[w] == x;
                if w == k {
                    assert(s[s.len() - 1] == x);
                } else {
                    let u = if w < k { w } else { w - 1 };
                    assert(t[u] == x);
                    assert(t.contains(x));
                    let z = choose|z: int| 0 <= z < p.len() && p[z] == x;
                    assert(s[z] == x);
                }
            }
            if s.contains(x) {
                let w = choose|w: int| 0 <= w < s.len() && s[w] == x;
                if w == s.len() - 1 {
                    assert(r[k] == x);
                } else {
                    assert(p[w] == x);
                    assert(p.contains(x));
                    assert(t.contains(x));
                    let u = choose|u: int| 0 <= u < t.len() && t[u] == x;
                    if u < k {
                        assert(r[u] == x);
                    } else {
                        assert(r[u + 1] == x);
                    }
                }
            }
        }
    }
}

/// Orders version entries from the greatest version number down, keeping the order of
/// entries with equal numbers.
pub fn sort_versions_desc(v: &Vec<(String, String)>) -> (r: Vec<(String, String)>)
    ensures
        r@ == sort_desc(v@),
{
    let mut out: Vec<(String, String)> = Vec::new();
    let mut i: usize = 0;
    while i < v.len()
        invariant
            i <= v@.len(),
            out@ == sort_desc(v@.subrange(0, i as int)),
        decreases v@.len() - i,
    {
        let x = (v[i].0.clone(), v[i].1.clone());
        proof {
            assert(v@.subrange(0, i + 1).drop_last() =~= v@.subrange(0, i as int));
            assert(v@.subrange(0, i + 1).last() == x);
            lemma_slot_from_range(out@, x, 0);
        }
        let mut j: usize = 0;
        while j < out.len() && !text_less(out[j].1.as_str(), x.1.as_str())
            invariant
                j <= out@.len(),
                slot_from(out@, x, 0) == slot_from(out@, x, j as int),
            decreases out@.len() - j,
        {
            j = j + 1;
        }
        out.insert(j, x);
        i = i + 1;
    }
    proof {
        assert(v@.subrange(0, v@.len() as int) =~= v@);
    }
    out
}

/// What resolving a package's versions returns: all of them, or only the latest.
pub open spec fn versions_result(db: &Snapshot, name: Seq<char>, latest: bool) -> Seq<
    (String, String),
> {
    if latest {
        match latest_version(db, name) {
            Some(k) => seq![(db.versions@[k].id, db.versions@[k].num)],
            None => seq![],
        }
    } else {
        sort_desc(all_versions(db, name))
    }
}

pub proof fn lemma_latest_upto_range(db: &Snapshot, name: Seq<char>, n: int)
    requires
        n <= db.versions@.len(),
    ensures
        match latest_upto(db, name, n) {
            Some(k) => 0 <= k < n && version_of_named(db, k, name),
            None => true,
        },
    decreases n,
{
    if n > 0 {
        lemma_latest_upto_range(db, name, n - 1);
    }
}

pub(crate) fn latest_position(db: &Snapshot, name: &str) -> (r: Option<usize>)
    ensures
        match r {
            Some(k) => latest_version(db, name@) == Some(k as int) && k < db.versions@.len(),
            None => latest_version(db, name@) is None,
        },
{
    let mut best: Option<usize> = None;
    let mut i: usize = 0;
    while i < db.versions.len()
        invariant
            i <= db.versions@.len(),
            match best {
                Some(k) => latest_upto(db, name@, i as int) == Some(k as int) && k < i,
                None => latest_upto(db, name@, i as int) is None,
            },
        decreases db.versions@.len() - i,
    {
        if belongs_to(db, i, name) {
            let take = match best {
                Some(m) => text_less(db.versions[m].num.as_str(), db.versions[i].num.as_str()),
                None => true,
            };
            if take {
                best = Some(i);
            }
        }
        i = i + 1;
    }
    best
}

/// Resolves a package name to its versions as (version id, version number) pairs:
/// every version, from the greatest number down, or, with `latest`, only the one with the
/// greatest number.
pub fn get_versions(db: &Snapshot, crate_name: String, latest: bool) -> (r: Vec<(String, String)>)
    ensures
        r@ == versions_result(db, crate_name@, latest),
{
    if latest {
        let mut out: Vec<(String, String)> = Vec::new();
        match latest_position(db, crate_name.as_str()) {
            Some(k) => {
                out.push((db.versions[k].id.clone(), db.versions[k].num.clone()));
            },
            None => {},
        }
        proof {
            assert(out@ =~= versions_result(db, crate_name@, latest));
        }
        out
    } else {
        let mut out: Vec<(String, String)> = Vec::new();
        let mut i: usize = 0;
        while i < db.versions.len()
            invariant
                i <= db.versions@.len(),
                out@ == versions_upto(db, crate_name@, i as int),
            decreases db.versions@.len() - i,
        {
            if belongs_to(db, i, crate_name.as_str()) {
                out.push((db.versions[i].id.clone(), db.versions[i].num.clone()));
            }
            i = i + 1;
        }
        sort_versions_desc(&out)
    }
}

/// The (id, name) pairs of the package rows called `name` among the first `n`.
pub open spec fn crates_named_upto(db: &Snapshot, name: Seq<char>, n: int) -> Seq<(String, String)>
    decreases n,
{
    if n <= 0 {
        seq![]
    } else if db.crates@[n - 1].name@ == name {
        crates_named_upto(db, name, n - 1).push((db.crates@[n - 1].id, db.crates@[n - 1].name))
    } else {
        crates_named_upto(db, name, n - 1)
    }
}

/// The packages called exactly `name`.
pub open spec fn crates_named(db: &Snapshot, name: Seq<char>) -> Seq<(String, String)> {
    crates_named_upto(db, name, db.crates@.len() as int)
}

/// Resolves a package name to the (id, name) pairs of the packages with that exact name.
pub fn get_crate_by_name(db: &Snapshot, crate_name: &str) -> (r: Vec<(String, String)>)
    ensures
        r@ == crates_named(db, crate_name@),
{
    let mut out: Vec<(String, String)> = Vec::new();
    let mut i: usize = 0;
    while i < db.crates.len()
        invariant
            i <= db.crates@.len(),
            out@ == crates_named_upto(db, crate_name@, i as int),
        decreases db.crates@.len() - i,
    {
        if text_eq(db.crates[i].name.as_str(), crate_name) {
            out.push((db.crates[i].id.clone(), db.crates[i].name.clone()));
        }
        i = i + 1;
    }
    out
}

/// Whether a dependency of the given kind passes a kind filter.
pub open spec fn admits(t: DependencyType, kind: DependencyKind) -> bool {
    match t {
        DependencyType::All => true,
        DependencyType::Normal => kind == DependencyKind::Normal,
        DependencyType::Dev => kind == DependencyKind::Dev,
    }
}

/// Whether dependency row `k` is an edge of version `version_id` that passes filter `t`
/// and whose target package is in the snapshot.
pub open spec fn dependency_listed(db: &Snapshot, k: int, version_id: Seq<char>, t: DependencyType) -> bool {
    db.dependencies@[k].version_id@ == version_id && admits(
        t,
        kind_of_code(db.dependencies@[k].kind@),
    ) && crate_of_id(db, db.dependencies@[k].crate_id@) is Some
}

/// The (dependency id, target package name) pairs listed among the first `n` dependency rows.
pub open spec fn dependencies_upto(db: &Snapshot, version_id: Seq<char>, t: DependencyType, n: int) -> Seq<
    (String, String),
>
    decreases n,
{
    if n <= 0 {
        seq![]
    } else if dependency_listed(db, n - 1, version_id, t) {
        dependencies_upto(db, version_id, t, n - 1).push(
            (
                db.dependencies@[n - 1].id,
                db.crates@[crate_of_id(db, db.dependencies@[n - 1].crate_id@).unwrap()].name,
            ),
        )
    } else {
        dependencies_upto(db, version_id, t, n - 1)
    }
}

/// The dependencies of a version that pass a kind filter.
pub open spec fn dependencies_of(db: &Snapshot, version_id: Seq<char>, t: DependencyType) -> Seq<
    (String, String),
> {
    dependencies_upto(db, version_id, t, db.dependencies@.len() as int)
}

/// Resolves a version id to its declared dependencies as (dependency id, target package
/// name) pairs, in the snapshot's order, keeping only those of the requested kind.
pub fn get_dependencies(db: &Snapshot, version_id: &str, d_type: DependencyType) -> (r: Vec<
    (String, String),
>)
    ensures
        r@ == dependencies_of(db, version_id@, d_type),
{
    let mut out: Vec<(String, String)> = Vec::new();
    let mut i: usize = 0;
    while i < db.dependencies.len()
        invariant
            i <= db.dependencies@.len(),
            out@ == dependencies_upto(db, version_id@, d_type, i as int),
        decreases db.dependencies@.len() - i,
    {
        let d: &DependencyRow = &db.dependencies[i];
        if text_eq(d.version_id.as_str(), version_id) {
            let kind = DependencyKind::parse(d.kind.clone());
            let pass = match d_type {
                DependencyType::All => true,
                DependencyType::Normal => kind == DependencyKind::Normal,
                DependencyType::Dev => kind == DependencyKind::Dev,
            };
            if pass {
                match find_crate(db, d.crate_id.as_str()) {
                    Some(j) => {
                        out.push((d.id.clone(), db.crates[j].name.clone()));
                    },
                    None => {},
                }
            }
        }
        i = i + 1;
    }
    out
}

/// Resolves a package name to the dependencies of its latest version; fails when the
/// package has no versions.
pub fn get_latest_dependencies(db: &Snapshot, crate_name: String, d_type: DependencyType) -> (r:
    Result<Vec<(String, String)>, Error>)
    ensures
        match latest_version(db, crate_name@) {
            Some(k) => r matches Ok(v) && v@ == dependencies_of(db, db.versions@[k].id@, d_type),
            None => r matches Err(Error::UnknownCrate(n)) && n@ == crate_name@,
        },
{
    let latest = get_versions(db, crate_name.clone(), true);
    if latest.len() == 0 {
        return Err(Error::UnknownCrate(crate_name));
    }
    let version_id: &str = latest[0].0.as_str();
    Ok(get_dependencies(db, version_id, d_type))
}

} // verus!
