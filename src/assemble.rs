use vstd::prelude::*;
use crate::model::{kind_of_code, Crate, CrateDependency, DependencyKind, Error, Snapshot};
use crate::query::{
    all_versions, get_versions, latest_position, latest_upto, latest_version,
    lemma_latest_upto_range, versions_result, versions_upto,
};
use crate::text::{parse_u32, text_eq, u32_of};

verus! {

/// Whether package `crate_id` is associated with keyword `keyword_id`.
pub open spec fn has_keyword(db: &Snapshot, crate_id: Seq<char>, keyword_id: Seq<char>) -> bool {
    exists|k: int|
        0 <= k < db.crates_keywords@.len() && #[trigger] db.crates_keywords@[k].crate_id@
            == crate_id && db.crates_keywords@[k].keyword_id@ == keyword_id
}

/// The keywords among the first `n` keyword rows that package `crate_id` is associated with.
pub open spec fn keywords_upto(db: &Snapshot, crate_id: Seq<char>, n: int) -> Seq<String>
    decreases n,
{
    if n <= 0 {
        seq![]
    } else if has_keyword(db, crate_id, db.keywords@[n - 1].id@) {
        keywords_upto(db, crate_id, n - 1).push(db.keywords@[n - 1].keyword)
    } else {
        keywords_upto(db, crate_id, n - 1)
    }
}

/// The keywords of package `crate_id`, in the order of the keyword relation.
pub open spec fn keywords_of(db: &Snapshot, crate_id: Seq<char>) -> Seq<String> {
    keywords_upto(db, crate_id, db.keywords@.len() as int)
}

fn associated(db: &Snapshot, crate_id: &str, keyword_id: &str) -> (r: bool)
    ensures
        r == has_keyword(db, crate_id@, keyword_id@),
{
    let mut k: usize = 0;
    while k < db.crates_keywords.len()
        invariant
            k <= db.crates_keywords@.len(),
            forall|m: int|
                0 <= m < k ==> !(#[trigger] db.crates_keywords@[m].crate_id@ == crate_id@
                    && db.crates_keywords@[m].keyword_id@ == keyword_id@),
        decreases db.crates_keywords@.len() - k,
    {
        if text_eq(db.crates_keywords[k].crate_id.as_str(), crate_id) && text_eq(
            db.crates_keywords[k].keyword_id.as_str(),
            keyword_id,
        ) {
            return true;
        }
        k = k + 1;
    }
    false
}

/// Position of the last package row among the first `n` called `name`.
pub open spec fn last_named_upto(db: &Snapshot, name: Seq<char>, n: int) -> Option<int>
    decreases n,
{
    if n <= 0 {
        None
    } else if db.crates@[n - 1].name@ == name {
        Some(n - 1)
    } else {
        last_named_upto(db, name, n - 1)
    }
}

/// Position of the package row that a package record is assembled from.
pub open spec fn record_row(db: &Snapshot, name: Seq<char>) -> Option<int> {
    last_named_upto(db, name, db.crates@.len() as int)
}

/// Positions of the dependency rows of version `vid` among the first `n`.
pub open spec fn edges_upto(db: &Snapshot, vid: Seq<char>, n: int) -> Seq<int>
    decreases n,
{
    if n <= 0 {
        seq![]
    } else if db.dependencies@[n - 1].version_id@ == vid {
        edges_upto(db, vid, n - 1).push(n - 1)
    } else {
        edges_upto(db, vid, n - 1)
    }
}

/// Positions of the dependency rows of version `vid`.
pub open spec fn edges_of(db: &Snapshot, vid: Seq<char>) -> Seq<int> {
    edges_upto(db, vid, db.dependencies@.len() as int)
}

/// The text of an optional link: none where the stored text is empty.
pub open spec fn link_of(s: String, r: Option<String>) -> bool {
    if s@.len() == 0 {
        r is None
    } else {
        r matches Some(u) && u == s
    }
}

/// The download count that stored text stands for: zero where it is no `u32`.
pub open spec fn downloads_of(s: Seq<char>) -> int {
    match u32_of(s) {
        Some(v) => v,
        None => 0,
    }
}

/// Whether `c` is the record of the package called `name`, drawn from package row `j`.
pub open spec fn crate_record(db: &Snapshot, name: Seq<char>, j: int, c: Crate) -> bool {
    let row = db.crates@[j];
    let k = latest_version(db, name).unwrap();
    let vs = versions_result(db, name, false);
    let edges = edges_of(db, db.versions@[k].id@);
    &&& c.crate_id == row.id
    &&& c.description == row.description
    &&& c.downloads as int == downloads_of(row.downloads@)
    &&& link_of(row.homepage, c.homepage_url)
    &&& link_of(row.repository, c.repo_url)
    &&& c.last_update == row.updated_at
    &&& c.keywords@ == keywords_of(db, row.id@)
    &&& c.versions@.len() == vs.len()
    &&& forall|i: int| 0 <= i < vs.len() ==> #[trigger] c.versions@[i] == vs[i].1
    &&& c.dependencies@.len() == edges.len()
    &&& forall|i: int|
        0 <= i < edges.len() ==> {
            let d = db.dependencies@[#[trigger] edges[i]];
            &&& c.dependencies@[i].crate_id == d.crate_id
            &&& c.dependencies@[i].version == d.req
            &&& c.dependencies@[i].kind == kind_of_code(d.kind@)
        }
}

/// What assembling the record of the package called `name` gives: a failure naming it
/// when it has no versions, none when no package row carries the name, else its record.
pub open spec fn crate_result_holds(db: &Snapshot, name: Seq<char>, r: Result<Option<Crate>, Error>) -> bool {
    if all_versions(db, name).len() == 0 {
        r matches Err(Error::UnknownCrate(n)) && n@ == name
    } else {
        match record_row(db, name) {
            None => r matches Ok(None),
            Some(j) => r matches Ok(Some(c)) && crate_record(db, name, j, c),
        }
    }
}

/// A package has a latest version exactly when it has any version.
pub proof fn lemma_latest_iff_versions(db: &Snapshot, name: Seq<char>, n: int)
    ensures
        (latest_upto(db, name, n) is None) == (versions_upto(db, name, n).len() == 0),
    decreases n,
{
    if n > 0 {
        lemma_latest_iff_versions(db, name, n - 1);
    }
}

fn link(s: &String) -> (r: Option<String>)
    ensures
        link_of(*s, r),
{
    if s.as_str().unicode_len() == 0 {
        None
    } else {
        Some(s.clone())
    }
}

impl Snapshot {
    /// The keywords of a package; a package without any has an empty list.
    pub fn get_keywords(&self, crate_id: &str) -> (r: Vec<String>)
        ensures
            r@ == keywords_of(self, crate_id@),
    {
        let mut out: Vec<String> = Vec::new();
        let mut i: usize = 0;
        while i < self.keywords.len()
            invariant
                i <= self.keywords@.len(),
                out@ == keywords_upto(self, crate_id@, i as int),
            decreases self.keywords@.len() - i,
        {
            if associated(self, crate_id, self.keywords[i].id.as_str()) {
                out.push(self.keywords[i].keyword.clone());
            }
            i = i + 1;
        }
        out
    }

    /// Assembles the complete record of the package called `crate_name`: fails when it
    /// has no versions, and gives none when no package row carries that name.
    pub fn get_crate(&self, crate_name: &str) -> (r: Result<Option<Crate>, Error>)
        ensures
            crate_result_holds(self, crate_name@, r),
    {
        let versions = get_versions(self, crate_name.to_string(), false);
        proof {
            lemma_latest_iff_versions(self, crate_name@, self.versions@.len() as int);
        }
        let latest = match latest_position(self, crate_name) {
            Some(k) => k,
            None => {
                return Err(Error::UnknownCrate(crate_name.to_string()));
            },
        };
        let version_id = self.versions[latest].id.as_str();
        let mut dependencies: Vec<CrateDependency> = Vec::new();
        let mut i: usize = 0;
        while i < self.dependencies.len()
            invariant
                i <= self.dependencies@.len(),
                version_id@ == self.versions@[latest as int].id@,
                dependencies@.len() == edges_upto(self, version_id@, i as int).len(),
                forall|m: int|
                    0 <= m < dependencies@.len() ==> {
                        let d = self.dependencies@[#[trigger] edges_upto(
                            self,
                            version_id@,
                            i as int,
                        )[m]];
                        &&& dependencies@[m].crate_id == d.crate_id
                        &&& dependencies@[m].version == d.req
                        &&& dependencies@[m].kind == kind_of_code(d.kind@)
                    },
            decreases self.dependencies@.len() - i,
        {
            let d = &self.dependencies[i];
            if text_eq(d.version_id.as_str(), version_id) {
                dependencies.push(
                    CrateDependency {
                        crate_id: d.crate_id.clone(),
                        version: d.req.clone(),
                        kind: DependencyKind::parse(d.kind.clone()),
                    },
                );
            }
            i = i + 1;
        }
        let mut mapped_versions: Vec<String> = Vec::new();
        let mut m: usize = 0;
        while m < versions.len()
            invariant
                m <= versions@.len(),
                mapped_versions@.len() == m,
                forall|p: int| 0 <= p < m ==> #[trigger] mapped_versions@[p] == versions@[p].1,
            decreases versions@.len() - m,
        {
            mapped_versions.push(versions[m].1.clone());
            m = m + 1;
        }
        let mut row: Option<usize> = None;
        let mut j: usize = 0;
        while j < self.crates.len()
            invariant
                j <= self.crates@.len(),
                match row {
                    Some(p) => last_named_upto(self, crate_name@, j as int) == Some(p as int) && p
                        < j,
                    None => last_named_upto(self, crate_name@, j as int) is None,
                },
            decreases self.crates@.len() - j,
        {
            if text_eq(self.crates[j].name.as_str(), crate_name) {
                row = Some(j);
            }
            j = j + 1;
        }
        match row {
            None => Ok(None),
            Some(p) => {
                let f = &self.crates[p];
                let downloads: u32 = match parse_u32(f.downloads.as_str()) {
                    Some(v) => v,
                    None => 0,
                };
                Ok(
                    Some(
                        Crate {
                            crate_id: f.id.clone(),
                            description: f.description.clone(),
                            downloads,
                            homepage_url: link(&f.homepage),
                            repo_url: link(&f.repository),
                            last_update: f.updated_at.clone(),
                            keywords: self.get_keywords(f.id.as_str()),
                            dependencies,
                            versions: mapped_versions,
                        },
                    ),
                )
            },
        }
    }
}

/// A store that package records can be looked up in.
pub trait CrateLookup {
    fn get_crate(&self, crate_name: &str) -> Result<Option<Crate>, Error>;

    fn get_keywords(&self, crate_id: &str) -> Vec<String>;
}

impl CrateLookup for Snapshot {
    fn get_crate(&self, crate_name: &str) -> Result<Option<Crate>, Error> {
        Snapshot::get_crate(self, crate_name)
    }

    fn get_keywords(&self, crate_id: &str) -> Vec<String> {
        Snapshot::get_keywords(self, crate_id)
    }
}

} // verus!
