use vstd::prelude::*;
use crate::model::{Error, Snapshot};
use crate::query::{
    crate_of_id, crates_named, find_crate, get_crate_by_name, latest_position, latest_version,
    lemma_crate_from_range, lemma_latest_upto_range, version_of_named,
};
use crate::text::text_eq;

verus! {

/// Whether the snapshot holds a version with id `vid` that belongs to package `cid`.
pub open spec fn has_version(db: &Snapshot, cid: Seq<char>, vid: Seq<char>) -> bool {
    exists|k: int|
        0 <= k < db.versions@.len() && #[trigger] db.versions@[k].id@ == vid
            && db.versions@[k].crate_id@ == cid
}

/// Position of the first dependency row, at or after `j`, from version `vid` onto package `bid`.
pub open spec fn edge_from(db: &Snapshot, vid: Seq<char>, bid: Seq<char>, j: int) -> Option<int>
    decreases db.dependencies@.len() - j,
{
    if j >= db.dependencies@.len() {
        None
    } else if db.dependencies@[j].version_id@ == vid && db.dependencies@[j].crate_id@ == bid {
        Some(j)
    } else {
        edge_from(db, vid, bid, j + 1)
    }
}

/// The dependency row from version `vid` onto package `bid`, if there is one.
pub open spec fn edge_of(db: &Snapshot, vid: Seq<char>, bid: Seq<char>) -> Option<int> {
    edge_from(db, vid, bid, 0)
}

pub proof fn lemma_edge_from(db: &Snapshot, vid: Seq<char>, bid: Seq<char>, j: int)
    requires
        0 <= j,
    ensures
        match edge_from(db, vid, bid, j) {
            Some(k) => j <= k < db.dependencies@.len() && db.dependencies@[k].version_id@ == vid
                && db.dependencies@[k].crate_id@ == bid,
            None => forall|k: int|
                j <= k < db.dependencies@.len() ==> !(#[trigger] db.dependencies@[k].version_id@
                    == vid && db.dependencies@[k].crate_id@ == bid),
        },
    decreases db.dependencies@.len() - j,
{
    if j < db.dependencies@.len() {
        lemma_edge_from(db, vid, bid, j + 1);
    }
}

/// The (required range, target name) pairs found for the first `n` target packages:
/// a target with no edge from version `vid` of package `cid` is left out.
pub open spec fn ranges_upto(
    db: &Snapshot,
    cid: Seq<char>,
    vid: Seq<char>,
    targets: Seq<(String, String)>,
    n: int,
) -> Seq<(String, String)>
    decreases n,
{
    if n <= 0 {
        seq![]
    } else {
        let prev = ranges_upto(db, cid, vid, targets, n - 1);
        if has_version(db, cid, vid) && edge_of(db, vid, targets[n - 1].0@) is Some {
            prev.push(
                (db.dependencies@[edge_of(db, vid, targets[n - 1].0@).unwrap()].req, targets[n - 1].1),
            )
        } else {
            prev
        }
    }
}

/// The ranges that version `vid` of package `cid` requires of each target package.
pub open spec fn ranges_of(db: &Snapshot, cid: Seq<char>, vid: Seq<char>, targets: Seq<(String, String)>) -> Seq<
    (String, String),
> {
    ranges_upto(db, cid, vid, targets, targets.len() as int)
}

fn find_version(db: &Snapshot, cid: &str, vid: &str) -> (r: bool)
    ensures
        r == has_version(db, cid@, vid@),
{
    let mut k: usize = 0;
    while k < db.versions.len()
        invariant
            k <= db.versions@.len(),
            forall|m: int|
                0 <= m < k ==> !(#[trigger] db.versions@[m].id@ == vid@ && db.versions@[m].crate_id@
                    == cid@),
        decreases db.versions@.len() - k,
    {
        if text_eq(db.versions[k].id.as_str(), vid) && text_eq(
            db.versions[k].crate_id.as_str(),
            cid,
        ) {
            return true;
        }
        k = k + 1;
    }
    false
}

fn find_edge(db: &Snapshot, vid: &str, bid: &str) -> (r: Option<usize>)
    ensures
        match r {
            Some(k) => edge_of(db, vid@, bid@) == Some(k as int) && k < db.dependencies@.len(),
            None => edge_of(db, vid@, bid@) is None,
        },
{
    let mut j: usize = 0;
    while j < db.dependencies.len()
        invariant
            j <= db.dependencies@.len(),
            edge_of(db, vid@, bid@) == edge_from(db, vid@, bid@, j as int),
        decreases db.dependencies@.len() - j,
    {
        if text_eq(db.dependencies[j].version_id.as_str(), vid) && text_eq(
            db.dependencies[j].crate_id.as_str(),
            bid,
        ) {
            return Some(j);
        }
        j = j + 1;
    }
    None
}

/// For each (package id, name) target, the range that version `vid` of package `cid`
/// requires of it, paired with the target's name; targets without such an edge are
/// left out.
pub fn get_versions_for_crate(
    db: &Snapshot,
    cid: &str,
    vid: &str,
    dependency_crates: &[(String, String)],
) -> (r: Vec<(String, String)>)
    ensures
        r@ == ranges_of(db, cid@, vid@, dependency_crates@),
{
    let owned = find_version(db, cid, vid);
    let mut out: Vec<(String, String)> = Vec::new();
    let mut i: usize = 0;
    while i < dependency_crates.len()
        invariant
            i <= dependency_crates@.len(),
            owned == has_version(db, cid@, vid@),
            out@ == ranges_upto(db, cid@, vid@, dependency_crates@, i as int),
        decreases dependency_crates@.len() - i,
    {
        if owned {
            match find_edge(db, vid, dependency_crates[i].0.as_str()) {
                Some(k) => {
                    out.push((db.dependencies[k].req.clone(), dependency_crates[i].1.clone()));
                },
                None => {},
            }
        }
        i = i + 1;
    }
    out
}

/// The reverse-dependency record of a candidate package with respect to a list of target
/// packages: its id, name, latest version's license and number, and the ranges its latest
/// version requires of the targets. A candidate without versions is reported as unknown.
pub open spec fn rev_onto_holds(
    db: &Snapshot,
    candidate: Seq<char>,
    targets: Seq<(String, String)>,
    r: Result<(String, String, String, String, Vec<(String, String)>), Error>,
) -> bool {
    match latest_version(db, candidate) {
        None => r matches Err(Error::UnknownCrate(n)) && n@ == candidate,
        Some(k) => {
            let v = db.versions@[k];
            let c = db.crates@[crate_of_id(db, v.crate_id@).unwrap()];
            r matches Ok(t) && t.0 == c.id && t.1 == c.name && t.2 == v.license && t.3 == v.num
                && t.4@ == ranges_of(db, c.id@, v.id@, targets)
        },
    }
}

/// The reverse-dependency record of a candidate with respect to the package(s) called
/// `target`.
pub open spec fn rev_dependency_holds(
    db: &Snapshot,
    candidate: Seq<char>,
    target: Seq<char>,
    r: Result<(String, String, String, String, Vec<(String, String)>), Error>,
) -> bool {
    rev_onto_holds(db, candidate, crates_named(db, target), r)
}

fn rev_dependency_onto(db: &Snapshot, crate_name: &str, targets: &[(String, String)]) -> (r:
    Result<(String, String, String, String, Vec<(String, String)>), Error>)
    ensures
        rev_onto_holds(db, crate_name@, targets@, r),
{
    match latest_position(db, crate_name) {
        None => Err(Error::UnknownCrate(crate_name.to_string())),
        Some(k) => {
            proof {
                lemma_latest_upto_range(db, crate_name@, db.versions@.len() as int);
                lemma_crate_from_range(db.crates@, db.versions@[k as int].crate_id@, 0);
            }
            let v = &db.versions[k];
            match find_crate(db, v.crate_id.as_str()) {
                Some(j) => {
                    let c = &db.crates[j];
                    let ranges = get_versions_for_crate(db, c.id.as_str(), v.id.as_str(), targets);
                    Ok((c.id.clone(), c.name.clone(), v.license.clone(), v.num.clone(), ranges))
                },
                None => Err(Error::UnknownCrate(crate_name.to_string())),
            }
        },
    }
}

/// Finds whether the latest version of `crate_name` depends on the package(s) called
/// `expected_crate_dep_name`, and with which range.
pub fn get_rev_dependency(db: &Snapshot, crate_name: &str, expected_crate_dep_name: &str) -> (r:
    Result<(String, String, String, String, Vec<(String, String)>), Error>)
    ensures
        rev_dependency_holds(db, crate_name@, expected_crate_dep_name@, r),
{
    let expected_crate = get_crate_by_name(db, expected_crate_dep_name);
    rev_dependency_onto(db, crate_name, expected_crate.as_slice())
}

/// The homepage that marks a package of the Bevy engine itself.
pub const ENGINE_HOMEPAGE: &'static str = "https://bevyengine.org";

/// The repository that marks a package of the Bevy engine itself.
pub const ENGINE_REPOSITORY: &'static str = "https://github.com/bevyengine/bevy";

/// The (id, name) pairs of the first `n` package rows with the engine's homepage and
/// repository.
pub open spec fn engine_crates_upto(db: &Snapshot, n: int) -> Seq<(String, String)>
    decreases n,
{
    if n <= 0 {
        seq![]
    } else if db.crates@[n - 1].homepage@ == ENGINE_HOMEPAGE@ && db.crates@[n - 1].repository@
        == ENGINE_REPOSITORY@ {
        engine_crates_upto(db, n - 1).push((db.crates@[n - 1].id, db.crates@[n - 1].name))
    } else {
        engine_crates_upto(db, n - 1)
    }
}

/// The packages of the Bevy engine itself: those with its homepage and repository.
pub open spec fn engine_crates(db: &Snapshot) -> Seq<(String, String)> {
    engine_crates_upto(db, db.crates@.len() as int)
}

/// Lists the (id, name) pairs of the packages of the Bevy engine itself, recognised by
/// their homepage and repository.
pub fn get_bevy_crates(db: &Snapshot) -> (r: Vec<(String, String)>)
    ensures
        r@ == engine_crates(db),
{
    let mut out: Vec<(String, String)> = Vec::new();
    let mut i: usize = 0;
    while i < db.crates.len()
        invariant
            i <= db.crates@.len(),
            out@ == engine_crates_upto(db, i as int),
        decreases db.crates@.len() - i,
    {
        if text_eq(db.crates[i].homepage.as_str(), ENGINE_HOMEPAGE) && text_eq(
            db.crates[i].repository.as_str(),
            ENGINE_REPOSITORY,
        ) {
            out.push((db.crates[i].id.clone(), db.crates[i].name.clone()));
        }
        i = i + 1;
    }
    out
}

/// Finds which of the Bevy engine's packages the latest version of `crate_name` depends
/// on, and with which ranges.
pub fn get_rev_dependencies(db: &Snapshot, crate_name: &str) -> (r: Result<
    (String, String, String, String, Vec<(String, String)>),
    Error,
>)
    ensures
        rev_onto_holds(db, crate_name@, engine_crates(db), r),
{
    let engine = get_bevy_crates(db);
    rev_dependency_onto(db, crate_name, engine.as_slice())
}

/// Runs the reverse-dependency lookup for each candidate in turn; each candidate's
/// outcome stands on its own, in the order of the candidates.
pub fn crate_list_get_rev_dependency(
    db: &Snapshot,
    crate_names: Vec<&str>,
    expected_crate_dep_name: &str,
) -> (r: Vec<Result<(String, String, String, String, Vec<(String, String)>), Error>>)
    ensures
        r@.len() == crate_names@.len(),
        forall|i: int|
            0 <= i < r@.len() ==> rev_dependency_holds(
                db,
                crate_names@[i]@,
                expected_crate_dep_name@,
                #[trigger] r@[i],
            ),
{
    let mut out: Vec<Result<(String, String, String, String, Vec<(String, String)>), Error>> =
        Vec::new();
    let mut i: usize = 0;
    while i < crate_names.len()
        invariant
            i <= crate_names@.len(),
            out@.len() == i,
            forall|m: int|
                0 <= m < i ==> rev_dependency_holds(
                    db,
                    crate_names@[m]@,
                    expected_crate_dep_name@,
                    #[trigger] out@[m],
                ),
        decreases crate_names@.len() - i,
    {
        out.push(get_rev_dependency(db, crate_names[i], expected_crate_dep_name));
        i = i + 1;
    }
    out
}

} // verus!
