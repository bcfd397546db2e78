use vstd::prelude::*;
use crate::assemble::{crate_result_holds, keywords_of, keywords_upto, lemma_latest_iff_versions};
use crate::model::{kind_of_code, Crate, DependencyKind, DependencyType, Error, Snapshot};
use crate::query::{
    crates_named, crates_named_upto, latest_version, lemma_crate_from_range, lemma_latest_upto_range,
    admits, all_versions, crate_of_id, dependencies_of, dependencies_upto, dependency_listed,
    latest_upto, lemma_sort_desc_contains, version_of_named, versions_result, versions_upto,
};
use crate::reverse::{edge_of, has_version, lemma_edge_from, ranges_of, ranges_upto, rev_dependency_holds};
use crate::text::{digits_value, is_digit, is_digits, lemma_text_lt_trans, text_lt, text_lt_from};

verus! {

proof fn lemma_text_lt_from_irreflexive(a: Seq<char>, i: int)
    requires
        0 <= i,
    ensures
        !text_lt_from(a, a, i),
    decreases a.len() - i,
{
    if i < a.len() {
        lemma_text_lt_from_irreflexive(a, i + 1);
    }
}

proof fn lemma_latest_max_upto(db: &Snapshot, name: Seq<char>, n: int)
    requires
        0 <= n <= db.versions@.len(),
    ensures
        match latest_upto(db, name, n) {
            Some(k) => {
                let top = (db.versions@[k].id, db.versions@[k].num);
                &&& versions_upto(db, name, n).contains(top)
                &&& forall|i: int|
                    0 <= i < versions_upto(db, name, n).len() ==> !text_lt(
                        db.versions@[k].num@,
                        (#[trigger] versions_upto(db, name, n)[i]).1@,
                    )
            },
            None => true,
        },
    decreases n,
{
    if n > 0 {
        lemma_latest_max_upto(db, name, n - 1);
        lemma_latest_iff_versions(db, name, n - 1);
        let prev = latest_upto(db, name, n - 1);
        let before = versions_upto(db, name, n - 1);
        let now = versions_upto(db, name, n);
        let last = db.versions@[n - 1].num@;
        lemma_text_lt_from_irreflexive(last, 0);
        if version_of_named(db, n - 1, name) {
            assert(now[now.len() - 1] == (db.versions@[n - 1].id, db.versions@[n - 1].num));
            match prev {
                Some(m) => {
                    if text_lt(db.versions@[m].num@, last) {
                        assert forall|i: int| 0 <= i < now.len() implies !text_lt(
                            last,
                            (#[trigger] now[i]).1@,
                        ) by {
                            if i < before.len() {
                                assert(now[i] == before[i]);
                                if text_lt(last, now[i].1@) {
                                    lemma_text_lt_trans(db.versions@[m].num@, last, now[i].1@);
                                }
                            }
                        }
                        assert(now.contains(now[now.len() - 1]));
                    } else {
                        assert(now[before.len() as int] == (db.versions@[n - 1].id, db.versions@[n - 1].num));
                        assert forall|i: int| 0 <= i < now.len() implies !text_lt(
                            db.versions@[m].num@,
                            (#[trigger] now[i]).1@,
                        ) by {
                            if i < before.len() {
                                assert(now[i] == before[i]);
                            }
                        }
                        let w = choose|i: int| 0 <= i < before.len() && before[i] == (db.versions@[m].id, db.versions@[m].num);
                        assert(now[w] == before[w]);
                    }
                },
                None => {
                    assert(now.len() == 1);
                    assert(now.contains(now[0]));
                },
            }
        }
    }
}

/// Resolving only the latest version of a package that has versions gives exactly one
/// entry: one of its versions, whose number no other version's number exceeds in
/// lexicographic order.
pub proof fn lemma_latest_is_maximum(db: &Snapshot, name: Seq<char>)
    requires
        all_versions(db, name).len() > 0,
    ensures
        versions_result(db, name, true).len() == 1,
        versions_result(db, name, false).contains(versions_result(db, name, true)[0]),
        forall|i: int|
            0 <= i < versions_result(db, name, false).len() ==> !text_lt(
                versions_result(db, name, true)[0].1@,
                (#[trigger] versions_result(db, name, false)[i]).1@,
            ),
{
    let n = db.versions@.len() as int;
    lemma_latest_iff_versions(db, name, n);
    lemma_latest_max_upto(db, name, n);
    let all = all_versions(db, name);
    let sorted = versions_result(db, name, false);
    lemma_sort_desc_contains(all);
    let top = versions_result(db, name, true)[0];
    assert(all.contains(top));
    assert(sorted.contains(top));
    assert forall|i: int| 0 <= i < sorted.len() implies !text_lt(top.1@, (#[trigger] sorted[i]).1@) by {
        assert(sorted.contains(sorted[i]));
        let w = choose|w: int| 0 <= w < all.len() && all[w] == sorted[i];
    }
}

/// A package without versions resolves to no version, latest or not, and assembling its
/// record fails as unknown.
pub proof fn lemma_no_versions(db: &Snapshot, name: Seq<char>, r: Result<Option<Crate>, Error>)
    requires
        all_versions(db, name).len() == 0,
        crate_result_holds(db, name, r),
    ensures
        versions_result(db, name, true).len() == 0,
        versions_result(db, name, false).len() == 0,
        r matches Err(Error::UnknownCrate(n)) && n@ == name,
{
    lemma_latest_iff_versions(db, name, db.versions@.len() as int);
    lemma_sort_desc_contains(all_versions(db, name));
}

/// The (dependency id, target name) pair that dependency row `k` is listed as.
pub open spec fn dep_pair(db: &Snapshot, k: int) -> (String, String) {
    (db.dependencies@[k].id, db.crates@[crate_of_id(db, db.dependencies@[k].crate_id@).unwrap()].name)
}

/// Whether `p` is what some dependency row before `n` is listed as under filter `t`.
pub open spec fn listed_before(db: &Snapshot, vid: Seq<char>, t: DependencyType, n: int, p: (String, String)) -> bool {
    exists|k: int| 0 <= k < n && dependency_listed(db, k, vid, t) && p == #[trigger] dep_pair(db, k)
}

proof fn lemma_dependencies_origin(db: &Snapshot, vid: Seq<char>, t: DependencyType, n: int)
    requires
        0 <= n <= db.dependencies@.len(),
    ensures
        forall|i: int|
            0 <= i < dependencies_upto(db, vid, t, n).len() ==> listed_before(
                db,
                vid,
                t,
                n,
                #[trigger] dependencies_upto(db, vid, t, n)[i],
            ),
    decreases n,
{
    if n > 0 {
        lemma_dependencies_origin(db, vid, t, n - 1);
        let before = dependencies_upto(db, vid, t, n - 1);
        let now = dependencies_upto(db, vid, t, n);
        assert forall|i: int| 0 <= i < now.len() implies listed_before(db, vid, t, n, #[trigger] now[i]) by {
            if i < before.len() {
                assert(now[i] == before[i]);
                assert(listed_before(db, vid, t, n - 1, before[i]));
                let k = choose|k: int|
                    0 <= k < n - 1 && dependency_listed(db, k, vid, t) && before[i] == #[trigger] dep_pair(db, k);
                assert(0 <= k < n && dependency_listed(db, k, vid, t) && now[i] == dep_pair(db, k));
            } else {
                let k = n - 1;
                assert(0 <= k < n && dependency_listed(db, k, vid, t) && now[i] == dep_pair(db, k));
            }
        }
    }
}

proof fn lemma_dependencies_complete(db: &Snapshot, vid: Seq<char>, t: DependencyType, n: int, k: int)
    requires
        0 <= k < n <= db.dependencies@.len(),
        dependency_listed(db, k, vid, t),
    ensures
        dependencies_upto(db, vid, t, n).contains(
            dep_pair(db, k),
        ),
    decreases n,
{
    let now = dependencies_upto(db, vid, t, n);
    let before = dependencies_upto(db, vid, t, n - 1);
    if k == n - 1 {
        assert(now[now.len() - 1] == dep_pair(db, k));
    } else {
        lemma_dependencies_complete(db, vid, t, n - 1, k);
        let w = choose|w: int|
            0 <= w < before.len() && before[w] == dep_pair(db, k);
        assert(now[w] == before[w]);
    }
}

/// Every dependency listed under the normal or the development filter is listed without a
/// filter too; where dependency ids are unique, no id is listed under both filters.
pub proof fn lemma_dependency_filters(db: &Snapshot, vid: Seq<char>)
    ensures
        forall|i: int|
            0 <= i < dependencies_of(db, vid, DependencyType::Normal).len() ==> dependencies_of(
                db,
                vid,
                DependencyType::All,
            ).contains(#[trigger] dependencies_of(db, vid, DependencyType::Normal)[i]),
        forall|i: int|
            0 <= i < dependencies_of(db, vid, DependencyType::Dev).len() ==> dependencies_of(
                db,
                vid,
                DependencyType::All,
            ).contains(#[trigger] dependencies_of(db, vid, DependencyType::Dev)[i]),
        (forall|a: int, b: int|
            0 <= a < b < db.dependencies@.len() ==> #[trigger] db.dependencies@[a].id@
                != #[trigger] db.dependencies@[b].id@) ==> forall|i: int, j: int|
            0 <= i < dependencies_of(db, vid, DependencyType::Normal).len() && 0 <= j
                < dependencies_of(db, vid, DependencyType::Dev).len() ==> (#[trigger] dependencies_of(
                db,
                vid,
                DependencyType::Normal,
            )[i]).0@ != (#[trigger] dependencies_of(db, vid, DependencyType::Dev)[j]).0@,
{
    let n = db.dependencies@.len() as int;
    let normal = dependencies_of(db, vid, DependencyType::Normal);
    let dev = dependencies_of(db, vid, DependencyType::Dev);
    lemma_dependencies_origin(db, vid, DependencyType::Normal, n);
    lemma_dependencies_origin(db, vid, DependencyType::Dev, n);
    assert forall|i: int| 0 <= i < normal.len() implies dependencies_of(
        db,
        vid,
        DependencyType::All,
    ).contains(#[trigger] normal[i]) by {
        assert(listed_before(db, vid, DependencyType::Normal, n, normal[i]));
        let k = choose|k: int|
            0 <= k < n && dependency_listed(db, k, vid, DependencyType::Normal) && normal[i] == #[trigger] dep_pair(db, k);
        lemma_dependencies_complete(db, vid, DependencyType::All, n, k);
    }
    assert forall|i: int| 0 <= i < dev.len() implies dependencies_of(
        db,
        vid,
        DependencyType::All,
    ).contains(#[trigger] dev[i]) by {
        assert(listed_before(db, vid, DependencyType::Dev, n, dev[i]));
        let k = choose|k: int|
            0 <= k < n && dependency_listed(db, k, vid, DependencyType::Dev) && dev[i] == #[trigger] dep_pair(db, k);
        lemma_dependencies_complete(db, vid, DependencyType::All, n, k);
    }
    if forall|a: int, b: int|
        0 <= a < b < db.dependencies@.len() ==> #[trigger] db.dependencies@[a].id@
            != #[trigger] db.dependencies@[b].id@ {
        assert forall|i: int, j: int|
            0 <= i < normal.len() && 0 <= j < dev.len() implies (#[trigger] normal[i]).0@ != (
            #[trigger] dev[j]).0@ by {
            assert(listed_before(db, vid, DependencyType::Normal, n, normal[i]));
            assert(listed_before(db, vid, DependencyType::Dev, n, dev[j]));
            let k1 = choose|k: int|
                0 <= k < n && dependency_listed(db, k, vid, DependencyType::Normal) && normal[i] == #[trigger] dep_pair(db, k);
            let k2 = choose|k: int|
                0 <= k < n && dependency_listed(db, k, vid, DependencyType::Dev) && dev[j] == #[trigger] dep_pair(db, k);
            assert(k1 != k2);
            if k1 < k2 {
                assert(db.dependencies@[k1].id@ != db.dependencies@[k2].id@);
            } else {
                assert(db.dependencies@[k2].id@ != db.dependencies@[k1].id@);
            }
        }
    }
}

proof fn lemma_digits_value_nonneg(d: Seq<char>)
    requires
        forall|k: int| 0 <= k < d.len() ==> is_digit(#[trigger] d[k]),
    ensures
        digits_value(d) >= 0,
    decreases d.len(),
{
    if d.len() > 0 {
        let p = d.drop_last();
        assert forall|k: int| 0 <= k < p.len() implies is_digit(#[trigger] p[k]) by {
            assert(p[k] == d[k]);
        }
        lemma_digits_value_nonneg(p);
        assert(is_digit(d[d.len() - 1]));
    }
}

/// Whether every character is the digit zero.
pub open spec fn all_zeros(d: Seq<char>) -> bool {
    forall|k: int| 0 <= k < d.len() ==> #[trigger] d[k] == '0'
}

proof fn lemma_digits_value_small(d: Seq<char>)
    requires
        forall|k: int| 0 <= k < d.len() ==> is_digit(#[trigger] d[k]),
    ensures
        digits_value(d) == 0 <==> all_zeros(d),
        d.len() > 0 ==> (digits_value(d) == 2 <==> (all_zeros(d.drop_last()) && d.last() == '2')),
    decreases d.len(),
{
    if d.len() > 0 {
        let p = d.drop_last();
        assert forall|k: int| 0 <= k < p.len() implies is_digit(#[trigger] p[k]) by {
            assert(p[k] == d[k]);
        }
        lemma_digits_value_small(p);
        lemma_digits_value_nonneg(p);
        assert(is_digit(d[d.len() - 1]));
        if all_zeros(d) {
            assert forall|k: int| 0 <= k < p.len() implies #[trigger] p[k] == '0' by {
                assert(p[k] == d[k]);
            }
        }
        if all_zeros(p) && d.last() == '0' {
            assert forall|k: int| 0 <= k < d.len() implies #[trigger] d[k] == '0' by {
                if k < p.len() {
                    assert(p[k] == d[k]);
                }
            }
        }
    }
}

/// What is left of a kind code once a leading sign is set aside.
pub open spec fn unsigned_part(s: Seq<char>) -> Seq<char> {
    if s.len() > 0 && (s[0] == '+' || s[0] == '-') {
        s.drop_first()
    } else {
        s
    }
}

/// A kind code reads as normal exactly when it is an optional sign followed by one or more
/// zeros, and as development-only exactly when it is an optional `+` followed by zeros and
/// a final 2; every other text, numeric or not, reads as unknown.
pub proof fn lemma_kind_codes(s: Seq<char>)
    ensures
        (kind_of_code(s) == DependencyKind::Normal) == (unsigned_part(s).len() > 0 && all_zeros(
            unsigned_part(s),
        )),
        (kind_of_code(s) == DependencyKind::Dev) == (unsigned_part(s).len() > 0 && !(s[0] == '-')
            && all_zeros(unsigned_part(s).drop_last()) && unsigned_part(s).last() == '2'),
        kind_of_code(seq!['0']) == DependencyKind::Normal,
        kind_of_code(seq!['2']) == DependencyKind::Dev,
{
    let u = unsigned_part(s);
    if forall|k: int| 0 <= k < u.len() ==> is_digit(#[trigger] u[k]) {
        lemma_digits_value_small(u);
        lemma_digits_value_nonneg(u);
    }
    if u.len() > 0 && all_zeros(u) {
        assert forall|k: int| 0 <= k < u.len() implies is_digit(#[trigger] u[k]) by {
            assert(u[k] == '0');
        }
        lemma_digits_value_small(u);
    }
    if u.len() > 0 && all_zeros(u.drop_last()) && u.last() == '2' {
        assert forall|k: int| 0 <= k < u.len() implies is_digit(#[trigger] u[k]) by {
            if k < u.len() - 1 {
                assert(u.drop_last()[k] == u[k]);
            }
        }
        lemma_digits_value_small(u);
    }
    assert(seq!['0'].drop_last() =~= Seq::<char>::empty());
    assert(seq!['2'].drop_last() =~= Seq::<char>::empty());
    assert(is_digits(seq!['0']));
    assert(is_digits(seq!['2']));
    reveal_with_fuel(digits_value, 2);
    assert(digits_value(seq!['0']) == 0);
    assert(digits_value(seq!['2']) == 2);
}

/// A package associated with no keyword has an empty keyword list.
pub proof fn lemma_no_keywords(db: &Snapshot, crate_id: Seq<char>)
    requires
        forall|k: int|
            0 <= k < db.crates_keywords@.len() ==> (#[trigger] db.crates_keywords@[k]).crate_id@
                != crate_id,
    ensures
        keywords_of(db, crate_id).len() == 0,
{
    lemma_no_keywords_upto(db, crate_id, db.keywords@.len() as int);
}

proof fn lemma_no_keywords_upto(db: &Snapshot, crate_id: Seq<char>, n: int)
    requires
        forall|k: int|
            0 <= k < db.crates_keywords@.len() ==> (#[trigger] db.crates_keywords@[k]).crate_id@
                != crate_id,
    ensures
        keywords_upto(db, crate_id, n).len() == 0,
    decreases n,
{
    if n > 0 {
        lemma_no_keywords_upto(db, crate_id, n - 1);
    }
}

proof fn lemma_crates_named_upto(db: &Snapshot, name: Seq<char>, n: int)
    ensures
        forall|i: int|
            0 <= i < crates_named_upto(db, name, n).len() ==> (#[trigger] crates_named_upto(
                db,
                name,
                n,
            )[i]).1@ == name,
    decreases n,
{
    if n > 0 {
        lemma_crates_named_upto(db, name, n - 1);
        let before = crates_named_upto(db, name, n - 1);
        let now = crates_named_upto(db, name, n);
        assert forall|i: int| 0 <= i < now.len() implies (#[trigger] now[i]).1@ == name by {
            if i < before.len() {
                assert(now[i] == before[i]);
            }
        }
    }
}

proof fn lemma_ranges_upto(
    db: &Snapshot,
    cid: Seq<char>,
    vid: Seq<char>,
    targets: Seq<(String, String)>,
    name: Seq<char>,
    n: int,
)
    requires
        0 <= n <= targets.len(),
        has_version(db, cid, vid),
        forall|j: int| 0 <= j < targets.len() ==> (#[trigger] targets[j]).1@ == name,
    ensures
        forall|i: int|
            0 <= i < ranges_upto(db, cid, vid, targets, n).len() ==> (#[trigger] ranges_upto(
                db,
                cid,
                vid,
                targets,
                n,
            )[i]).1@ == name,
        (ranges_upto(db, cid, vid, targets, n).len() > 0) == (exists|j: int|
            0 <= j < n && (#[trigger] edge_of(db, vid, targets[j].0@)) is Some),
    decreases n,
{
    if n > 0 {
        lemma_ranges_upto(db, cid, vid, targets, name, n - 1);
        let before = ranges_upto(db, cid, vid, targets, n - 1);
        let now = ranges_upto(db, cid, vid, targets, n);
        assert forall|i: int| 0 <= i < now.len() implies (#[trigger] now[i]).1@ == name by {
            if i < before.len() {
                assert(now[i] == before[i]);
            } else {
                assert(targets[n - 1].1@ == name);
            }
        }
        if edge_of(db, vid, targets[n - 1].0@) is Some {
            assert(now.len() > 0);
        } else if exists|j: int| 0 <= j < n && (#[trigger] edge_of(db, vid, targets[j].0@)) is Some {
            let j = choose|j: int| 0 <= j < n && (#[trigger] edge_of(db, vid, targets[j].0@)) is Some;
            assert(j < n - 1);
        }
    }
}

/// The ranges reported for a candidate all name the target, and there is one exactly when
/// the candidate's latest version has a dependency edge onto a package of the target's name.
pub proof fn lemma_reverse_dependency_entries(
    db: &Snapshot,
    candidate: Seq<char>,
    target: Seq<char>,
    r: Result<(String, String, String, String, Vec<(String, String)>), Error>,
)
    requires
        rev_dependency_holds(db, candidate, target, r),
        r is Ok,
    ensures
        latest_version(db, candidate) is Some,
        forall|i: int|
            0 <= i < r->Ok_0.4@.len() ==> (#[trigger] r->Ok_0.4@[i]).1@ == target,
        (r->Ok_0.4@.len() > 0) == (exists|j: int, e: int|
            0 <= j < crates_named(db, target).len() && 0 <= e < db.dependencies@.len()
                && (#[trigger] db.dependencies@[e]).version_id@
                == db.versions@[latest_version(db, candidate).unwrap()].id@
                && db.dependencies@[e].crate_id@ == (#[trigger] crates_named(db, target)[j]).0@),
{
    let k = latest_version(db, candidate).unwrap();
    let v = db.versions@[k];
    lemma_latest_upto_range(db, candidate, db.versions@.len() as int);
    lemma_crate_from_range(db.crates@, v.crate_id@, 0);
    let c = db.crates@[crate_of_id(db, v.crate_id@).unwrap()];
    assert(db.versions@[k].id@ == v.id@ && db.versions@[k].crate_id@ == c.id@);
    assert(has_version(db, c.id@, v.id@));
    let targets = crates_named(db, target);
    lemma_crates_named_upto(db, target, db.crates@.len() as int);
    lemma_ranges_upto(db, c.id@, v.id@, targets, target, targets.len() as int);
    let t = r->Ok_0;
    assert(t.4@ == ranges_of(db, c.id@, v.id@, targets));
    if t.4@.len() > 0 {
        let j = choose|j: int| 0 <= j < targets.len() && (#[trigger] edge_of(db, v.id@, targets[j].0@)) is Some;
        lemma_edge_from(db, v.id@, targets[j].0@, 0);
        let e = edge_of(db, v.id@, targets[j].0@).unwrap();
        assert(db.dependencies@[e].version_id@ == v.id@ && db.dependencies@[e].crate_id@ == targets[j].0@);
    }
    if exists|j: int, e: int|
        0 <= j < targets.len() && 0 <= e < db.dependencies@.len()
            && (#[trigger] db.dependencies@[e]).version_id@ == v.id@
            && db.dependencies@[e].crate_id@ == (#[trigger] targets[j]).0@ {
        let (j, e) = choose|j: int, e: int|
            0 <= j < targets.len() && 0 <= e < db.dependencies@.len()
                && (#[trigger] db.dependencies@[e]).version_id@ == v.id@
                && db.dependencies@[e].crate_id@ == (#[trigger] targets[j]).0@;
        lemma_edge_from(db, v.id@, targets[j].0@, 0);
        assert(edge_of(db, v.id@, targets[j].0@) is Some);
    }
}

/// Two lookups of the same candidate and target in the same snapshot agree.
pub proof fn lemma_reverse_dependency_deterministic(
    db: &Snapshot,
    candidate: Seq<char>,
    target: Seq<char>,
    r1: Result<(String, String, String, String, Vec<(String, String)>), Error>,
    r2: Result<(String, String, String, String, Vec<(String, String)>), Error>,
)
    requires
        rev_dependency_holds(db, candidate, target, r1),
        rev_dependency_holds(db, candidate, target, r2),
    ensures
        r1 is Ok == r2 is Ok,
        r1 is Ok ==> {
            let (a, b) = (r1->Ok_0, r2->Ok_0);
            a.0 == b.0 && a.1 == b.1 && a.2 == b.2 && a.3 == b.3 && a.4@ == b.4@
        },
        r1 is Err ==> (r1 matches Err(Error::UnknownCrate(x)) && r2 matches Err(
            Error::UnknownCrate(y),
        ) && x@ == y@),
{
}

} // verus!
