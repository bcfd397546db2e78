use vstd::prelude::*;
use vstd::string::StrSliceExecFns;
use crate::model::Snapshot;
use crate::query::{crate_of_id, find_crate};

verus! {

/// Whether `c` is the letter given in lower and upper case.
pub open spec fn letter_is(c: char, lower: char, upper: char) -> bool {
    c == lower || c == upper
}

/// Whether `s` holds "bevy" at position `i`, ignoring ASCII case.
pub open spec fn bevy_at(s: Seq<char>, i: int) -> bool {
    0 <= i && i + 4 <= s.len() && letter_is(s[i], 'b', 'B') && letter_is(s[i + 1], 'e', 'E')
        && letter_is(s[i + 2], 'v', 'V') && letter_is(s[i + 3], 'y', 'Y')
}

/// Whether a name mentions "bevy" anywhere, ignoring ASCII case.
pub open spec fn mentions_bevy(s: Seq<char>) -> bool {
    exists|i: int| #[trigger] bevy_at(s, i)
}

fn has_bevy(s: &str) -> (r: bool)
    ensures
        r == mentions_bevy(s@),
{
    let n = s.unicode_len();
    if n < 4 {
        return false;
    }
    let mut i: usize = 0;
    while i <= n - 4
        invariant
            n == s@.len(),
            n >= 4,
            i <= n - 3,
            forall|k: int| 0 <= k < i ==> !#[trigger] bevy_at(s@, k),
        decreases n - i,
    {
        let (c0, c1, c2, c3) = (s.get_char(i), s.get_char(i + 1), s.get_char(i + 2), s.get_char(i + 3));
        if (c0 == 'b' || c0 == 'B') && (c1 == 'e' || c1 == 'E') && (c2 == 'v' || c2 == 'V') && (c3
            == 'y' || c3 == 'Y') {
            assert(bevy_at(s@, i as int));
            return true;
        }
        i = i + 1;
    }
    assert forall|k: int| !#[trigger] bevy_at(s@, k) by {
        if 0 <= k && k < i {
        }
    }
    false
}

/// Whether a name starts with "bevy", in any ASCII case, followed by at least one more
/// character.
pub open spec fn bevy_prefixed(s: Seq<char>) -> bool {
    s.len() >= 5 && bevy_at(s, 0)
}

/// Whether a name is selected: by its "bevy" prefix, or by "bevy" anywhere in it.
pub open spec fn name_selected(s: Seq<char>, prefix_only: bool) -> bool {
    if prefix_only {
        bevy_prefixed(s)
    } else {
        mentions_bevy(s)
    }
}

/// Whether dependency row `k` targets a package in the snapshot whose name is selected.
pub open spec fn targets_bevy(db: &Snapshot, k: int, prefix_only: bool) -> bool {
    match crate_of_id(db, db.dependencies@[k].crate_id@) {
        Some(j) => name_selected(db.crates@[j].name@, prefix_only),
        None => false,
    }
}

fn selected(s: &str, prefix_only: bool) -> (r: bool)
    ensures
        r == name_selected(s@, prefix_only),
{
    if prefix_only {
        let n = s.unicode_len();
        if n < 5 {
            return false;
        }
        let (c0, c1, c2, c3) = (s.get_char(0), s.get_char(1), s.get_char(2), s.get_char(3));
        (c0 == 'b' || c0 == 'B') && (c1 == 'e' || c1 == 'E') && (c2 == 'v' || c2 == 'V') && (c3
            == 'y' || c3 == 'Y')
    } else {
        has_bevy(s)
    }
}

/// One (dependency id, target name) pair for each distinct selected target name among the
/// first `n` dependency rows: the earliest row that targets it.
pub open spec fn plugins_upto(db: &Snapshot, n: int, prefix_only: bool) -> Seq<(String, String)>
    decreases n,
{
    if n <= 0 {
        seq![]
    } else {
        let prev = plugins_upto(db, n - 1, prefix_only);
        if targets_bevy(db, n - 1, prefix_only) {
            let name = db.crates@[crate_of_id(db, db.dependencies@[n - 1].crate_id@).unwrap()].name;
            if exists|i: int| 0 <= i < prev.len() && (#[trigger] prev[i]).1@ == name@ {
                prev
            } else {
                prev.push((db.dependencies@[n - 1].id, name))
            }
        } else {
            prev
        }
    }
}

fn collect_plugins(db: &Snapshot, prefix_only: bool) -> (r: Vec<(String, String)>)
    ensures
        r@ == plugins_upto(db, db.dependencies@.len() as int, prefix_only),
{
    let mut out: Vec<(String, String)> = Vec::new();
    let mut i: usize = 0;
    while i < db.dependencies.len()
        invariant
            i <= db.dependencies@.len(),
            out@ == plugins_upto(db, i as int, prefix_only),
        decreases db.dependencies@.len() - i,
    {
        match find_crate(db, db.dependencies[i].crate_id.as_str()) {
            Some(j) => {
                let name = &db.crates[j].name;
                if selected(name.as_str(), prefix_only) {
                    let mut m: usize = 0;
                    let mut seen = false;
                    while m < out.len()
                        invariant
                            m <= out@.len(),
                            !seen ==> forall|q: int| 0 <= q < m ==> (#[trigger] out@[q]).1@ != name@,
                            seen ==> exists|q: int| 0 <= q < out@.len() && (#[trigger] out@[q]).1@ == name@,
                        decreases out@.len() - m,
                    {
                        if out[m].1 == *name {
                            seen = true;
                        }
                        m = m + 1;
                    }
                    if !seen {
                        out.push((db.dependencies[i].id.clone(), name.clone()));
                    }
                }
            },
            None => {},
        }
        i = i + 1;
    }
    out
}

/// Lists every package that some dependency edge targets and whose name mentions "bevy"
/// in any ASCII case, once per name, with the id of the first such edge.
pub fn get_bevy_plugins_naive(db: &Snapshot) -> (r: Vec<(String, String)>)
    ensures
        r@ == plugins_upto(db, db.dependencies@.len() as int, false),
{
    collect_plugins(db, false)
}

/// Lists every package that some dependency edge targets and whose name is "bevy" in any
/// ASCII case followed by at least one more character, once per name, with the id of the
/// first such edge.
pub fn get_bevy_plugins(db: &Snapshot) -> (r: Vec<(String, String)>)
    ensures
        r@ == plugins_upto(db, db.dependencies@.len() as int, true),
{
    collect_plugins(db, true)
}

} // verus!
