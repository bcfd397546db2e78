use vstd::prelude::*;
use crate::text::{i32_of, parse_i32};

verus! {

/// A row of the packages relation.
pub struct CrateRow {
    pub id: String,
    pub name: String,
    pub description: String,
    pub downloads: String,
    pub homepage: String,
    pub repository: String,
    pub updated_at: String,
}

/// A row of the versions relation: one published release of a package.
pub struct VersionRow {
    pub id: String,
    pub crate_id: String,
    pub num: String,
    pub license: String,
}

/// A row of the dependencies relation: an edge from a version onto a package.
pub struct DependencyRow {
    pub id: String,
    pub version_id: String,
    pub crate_id: String,
    pub req: String,
    pub kind: String,
}

/// A row of the keywords relation.
pub struct KeywordRow {
    pub id: String,
    pub keyword: String,
}

/// A row of the package-keyword association relation.
pub struct CrateKeywordRow {
    pub crate_id: String,
    pub keyword_id: String,
}

/// A read-only snapshot of the registry's five relations.
pub struct Snapshot {
    pub crates: Vec<CrateRow>,
    pub versions: Vec<VersionRow>,
    pub dependencies: Vec<DependencyRow>,
    pub keywords: Vec<KeywordRow>,
    pub crates_keywords: Vec<CrateKeywordRow>,
}

/// What a lookup can fail with.
#[derive(Debug)]
pub enum Error {
    /// The backing store could not answer a query.
    LookupError(String),
    /// The named package has no versions.
    UnknownCrate(String),
}

/// The kinds of dependency a lookup can be restricted to.
#[derive(PartialEq, Eq, Structural, Debug, Clone, Copy)]
pub enum DependencyType {
    Normal,
    Dev,
    All,
}

/// The classification of a dependency edge.
#[derive(PartialEq, Eq, Structural, Debug, Clone, Copy)]
pub enum DependencyKind {
    Normal,
    Dev,
    Unknown,
}

/// The kind that a stored kind code stands for: 0 is normal, 2 is development-only,
/// anything else (other numbers, text that is no number) is unknown.
pub open spec fn kind_of_code(code: Seq<char>) -> DependencyKind {
    match i32_of(code) {
        Some(v) => if v == 0 {
            DependencyKind::Normal
        } else if v == 2 {
            DependencyKind::Dev
        } else {
            DependencyKind::Unknown
        },
        None => DependencyKind::Unknown,
    }
}

impl Default for DependencyKind {
    fn default() -> (r: Self)
        ensures
            r == DependencyKind::Unknown,
    {
        DependencyKind::Unknown
    }
}

impl DependencyKind {
    /// Reads a stored kind code.
    pub fn parse(kind_num: String) -> (r: DependencyKind)
        ensures
            r == kind_of_code(kind_num@),
    {
        match parse_i32(kind_num.as_str()) {
            Some(x) => if x == 0 {
                DependencyKind::Normal
            } else if x == 2 {
                DependencyKind::Dev
            } else {
                DependencyKind::Unknown
            },
            None => DependencyKind::Unknown,
        }
    }
}

/// One dependency of a package's latest version.
#[derive(Debug, Clone)]
pub struct CrateDependency {
    pub crate_id: String,
    pub version: String,
    pub kind: DependencyKind,
}

/// A complete package record.
#[derive(Debug)]
pub struct Crate {
    pub crate_id: String,
    pub keywords: Vec<String>,
    pub versions: Vec<String>,
    pub description: String,
    pub downloads: u32,
    pub repo_url: Option<String>,
    pub homepage_url: Option<String>,
    pub last_update: String,
    pub dependencies: Vec<CrateDependency>,
}

} // verus!
