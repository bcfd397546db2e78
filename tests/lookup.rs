use crate_lookup::assemble::CrateLookup;
use crate_lookup::config::{read_config, CONFIG_PATH};
use crate_lookup::plugins::{get_bevy_plugins, get_bevy_plugins_naive};
use crate_lookup::model::{
    CrateKeywordRow, CrateRow, DependencyKind, DependencyRow, DependencyType, Error, KeywordRow,
    Snapshot, VersionRow,
};
use crate_lookup::query::{
    get_crate_by_name, get_dependencies, get_latest_dependencies, get_versions, sort_versions_desc,
};
use crate_lookup::reverse::{
    crate_list_get_rev_dependency, get_bevy_crates, get_rev_dependencies, get_rev_dependency,
    get_versions_for_crate,
};

fn s(x: &str) -> String {
    x.to_string()
}

fn krate(id: &str, name: &str, downloads: &str, homepage: &str, repository: &str) -> CrateRow {
    CrateRow {
        id: s(id),
        name: s(name),
        description: format!("about {}", name),
        downloads: s(downloads),
        homepage: s(homepage),
        repository: s(repository),
        updated_at: s("2022-11-12"),
    }
}

fn version(id: &str, crate_id: &str, num: &str, license: &str) -> VersionRow {
    VersionRow { id: s(id), crate_id: s(crate_id), num: s(num), license: s(license) }
}

fn dep(id: &str, version_id: &str, crate_id: &str, req: &str, kind: &str) -> DependencyRow {
    DependencyRow {
        id: s(id),
        version_id: s(version_id),
        crate_id: s(crate_id),
        req: s(req),
        kind: s(kind),
    }
}

fn fixture() -> Snapshot {
    Snapshot {
        crates: vec![
            krate("1", "bevy", "1234", "https://bevyengine.org", "https://github.com/bevyengine/bevy"),
            krate("2", "bevy_egui", "abc", "", "https://github.com/mvlabat/bevy_egui"),
            krate("3", "serde", "99", "https://serde.rs", ""),
            krate("4", "lonely", "7", "", ""),
        ],
        versions: vec![
            version("10", "1", "0.8.0", "MIT"),
            version("11", "1", "0.9.0", "MIT OR Apache-2.0"),
            version("20", "2", "0.9.0", "MIT"),
            version("21", "2", "0.10.1", "MIT"),
            version("22", "2", "0.17.0", "MIT"),
            version("30", "3", "1.0.0", "MIT"),
        ],
        dependencies: vec![
            dep("100", "20", "1", "^0.9", "0"),
            dep("101", "20", "3", "^1", "2"),
            dep("102", "20", "3", "^1.0", "7"),
            dep("103", "21", "1", "^0.10", "0"),
            dep("104", "11", "3", "^1", "0"),
        ],
        keywords: vec![
            KeywordRow { id: s("k1"), keyword: s("gamedev") },
            KeywordRow { id: s("k2"), keyword: s("engine") },
            KeywordRow { id: s("k3"), keyword: s("serialization") },
        ],
        crates_keywords: vec![
            CrateKeywordRow { crate_id: s("1"), keyword_id: s("k1") },
            CrateKeywordRow { crate_id: s("1"), keyword_id: s("k2") },
            CrateKeywordRow { crate_id: s("3"), keyword_id: s("k3") },
        ],
    }
}

fn pairs(v: &[(&str, &str)]) -> Vec<(String, String)> {
    v.iter().map(|(a, b)| (s(a), s(b))).collect()
}

#[test]
fn kind_codes_map_to_kinds() {
    assert_eq!(DependencyKind::parse(s("0")), DependencyKind::Normal);
    assert_eq!(DependencyKind::parse(s("2")), DependencyKind::Dev);
    assert_eq!(DependencyKind::parse(s("1")), DependencyKind::Unknown);
    assert_eq!(DependencyKind::parse(s("dev")), DependencyKind::Unknown);
    assert_eq!(DependencyKind::parse(s("")), DependencyKind::Unknown);
    assert_eq!(DependencyKind::parse(s("99999999999")), DependencyKind::Unknown);
    assert_eq!(DependencyKind::parse(s("+2")), DependencyKind::Dev);
    assert_eq!(DependencyKind::parse(s("00")), DependencyKind::Normal);
    assert_eq!(DependencyKind::parse(s("-0")), DependencyKind::Normal);
    assert_eq!(DependencyKind::parse(s("-2")), DependencyKind::Unknown);
    assert_eq!(DependencyKind::parse(s("+")), DependencyKind::Unknown);
    assert_eq!(DependencyKind::parse(s(" 0")), DependencyKind::Unknown);
}

#[test]
fn default_kind_is_unknown() {
    assert_eq!(DependencyKind::default(), DependencyKind::Unknown);
}

#[test]
fn all_versions_descending() {
    let db = fixture();
    assert_eq!(
        get_versions(&db, s("bevy_egui"), false),
        pairs(&[("20", "0.9.0"), ("22", "0.17.0"), ("21", "0.10.1")])
    );
    assert_eq!(get_versions(&db, s("bevy"), false), pairs(&[("11", "0.9.0"), ("10", "0.8.0")]));
}

#[test]
fn equal_version_numbers_keep_their_order() {
    let mut db = fixture();
    db.versions.push(version("23", "2", "0.17.0", "MIT"));
    db.versions.push(version("24", "2", "0.9.0", "MIT"));
    assert_eq!(
        get_versions(&db, s("bevy_egui"), false),
        pairs(&[("20", "0.9.0"), ("24", "0.9.0"), ("22", "0.17.0"), ("23", "0.17.0"), ("21", "0.10.1")])
    );
    assert_eq!(get_versions(&db, s("bevy_egui"), true), pairs(&[("20", "0.9.0")]));
}

#[test]
fn sorting_version_entries() {
    let v = pairs(&[("a", "1.0"), ("b", "10.0"), ("c", "2.0"), ("d", "")]);
    assert_eq!(
        sort_versions_desc(&v),
        pairs(&[("c", "2.0"), ("b", "10.0"), ("a", "1.0"), ("d", "")])
    );
    assert!(sort_versions_desc(&vec![]).is_empty());
}

#[test]
fn latest_version_is_lexicographic_maximum() {
    let db = fixture();
    // "0.9.0" sorts after "0.17.0" and "0.10.1" character by character.
    assert_eq!(get_versions(&db, s("bevy_egui"), true), pairs(&[("20", "0.9.0")]));
    assert_eq!(get_versions(&db, s("bevy"), true), pairs(&[("11", "0.9.0")]));
}

#[test]
fn unknown_package_has_no_versions() {
    let db = fixture();
    assert!(get_versions(&db, s("nope"), true).is_empty());
    assert!(get_versions(&db, s("nope"), false).is_empty());
    assert!(get_versions(&db, s("lonely"), false).is_empty());
    assert!(matches!(db.get_crate("lonely"), Err(Error::UnknownCrate(n)) if n == "lonely"));
    assert!(matches!(db.get_crate("nope"), Err(Error::UnknownCrate(n)) if n == "nope"));
}

#[test]
fn name_match_is_exact() {
    let db = fixture();
    assert!(get_versions(&db, s("Bevy"), false).is_empty());
    assert_eq!(get_crate_by_name(&db, "bevy"), pairs(&[("1", "bevy")]));
    assert!(get_crate_by_name(&db, "bev").is_empty());
}

#[test]
fn dependency_filters() {
    let db = fixture();
    assert_eq!(
        get_dependencies(&db, "20", DependencyType::All),
        pairs(&[("100", "bevy"), ("101", "serde"), ("102", "serde")])
    );
    assert_eq!(get_dependencies(&db, "20", DependencyType::Normal), pairs(&[("100", "bevy")]));
    assert_eq!(get_dependencies(&db, "20", DependencyType::Dev), pairs(&[("101", "serde")]));
    assert!(get_dependencies(&db, "999", DependencyType::All).is_empty());
}

#[test]
fn latest_dependencies() {
    let db = fixture();
    assert_eq!(
        get_latest_dependencies(&db, s("bevy_egui"), DependencyType::Normal).unwrap(),
        pairs(&[("100", "bevy")])
    );
    assert_eq!(
        get_latest_dependencies(&db, s("bevy"), DependencyType::All).unwrap(),
        pairs(&[("104", "serde")])
    );
    assert!(matches!(
        get_latest_dependencies(&db, s("nope"), DependencyType::All),
        Err(Error::UnknownCrate(n)) if n == "nope"
    ));
}

#[test]
fn reverse_dependency_found() {
    let db = fixture();
    let r = get_rev_dependency(&db, "bevy_egui", "bevy").unwrap();
    assert_eq!(r.0, "2");
    assert_eq!(r.1, "bevy_egui");
    assert_eq!(r.2, "MIT");
    assert_eq!(r.3, "0.9.0");
    assert_eq!(r.4, pairs(&[("^0.9", "bevy")]));
}

#[test]
fn reverse_dependency_absent_edge_is_omitted() {
    let db = fixture();
    let r = get_rev_dependency(&db, "serde", "bevy").unwrap();
    assert_eq!(r.1, "serde");
    assert!(r.4.is_empty());
    let r = get_rev_dependency(&db, "bevy_egui", "no_such_target").unwrap();
    assert!(r.4.is_empty());
}

#[test]
fn reverse_dependency_unknown_candidate() {
    let db = fixture();
    assert!(matches!(
        get_rev_dependency(&db, "a", "bevy"),
        Err(Error::UnknownCrate(n)) if n == "a"
    ));
}

#[test]
fn reverse_dependency_list_isolates_failures() {
    let db = fixture();
    let r = crate_list_get_rev_dependency(&db, vec!["a", "bevy_egui"], "bevy");
    assert_eq!(r.len(), 2);
    assert!(r[0].is_err());
    assert!(r[1].is_ok());
    assert_eq!(r[1].as_ref().unwrap().4, pairs(&[("^0.9", "bevy")]));
    assert!(crate_list_get_rev_dependency(&db, vec![], "bevy").is_empty());
}

#[test]
fn ranges_for_targets() {
    let db = fixture();
    let targets = pairs(&[("1", "bevy"), ("3", "serde"), ("4", "lonely")]);
    assert_eq!(
        get_versions_for_crate(&db, "2", "20", &targets),
        pairs(&[("^0.9", "bevy"), ("^1", "serde")])
    );
    // the version must belong to the named package
    assert!(get_versions_for_crate(&db, "1", "20", &targets).is_empty());
}

#[test]
fn keywords_of_packages() {
    let db = fixture();
    assert_eq!(db.get_keywords("1"), vec![s("gamedev"), s("engine")]);
    assert!(db.get_keywords("2").is_empty());
    assert!(CrateLookup::get_keywords(&db, "4").is_empty());
}

#[test]
fn assembled_record() {
    let db = fixture();
    let c = db.get_crate("bevy_egui").unwrap().unwrap();
    assert_eq!(c.crate_id, "2");
    assert_eq!(c.description, "about bevy_egui");
    assert_eq!(c.downloads, 0);
    assert_eq!(c.homepage_url, None);
    assert_eq!(c.repo_url, Some(s("https://github.com/mvlabat/bevy_egui")));
    assert_eq!(c.last_update, "2022-11-12");
    assert!(c.keywords.is_empty());
    assert_eq!(c.versions, vec![s("0.9.0"), s("0.17.0"), s("0.10.1")]);
    assert_eq!(c.dependencies.len(), 3);
    assert_eq!(c.dependencies[0].crate_id, "1");
    assert_eq!(c.dependencies[0].version, "^0.9");
    assert_eq!(c.dependencies[0].kind, DependencyKind::Normal);
    assert_eq!(c.dependencies[1].kind, DependencyKind::Dev);
    assert_eq!(c.dependencies[2].kind, DependencyKind::Unknown);
}

#[test]
fn assembled_record_counts_and_links() {
    let db = fixture();
    let c = CrateLookup::get_crate(&db, "bevy").unwrap().unwrap();
    assert_eq!(c.downloads, 1234);
    assert_eq!(c.homepage_url, Some(s("https://bevyengine.org")));
    assert_eq!(c.keywords, vec![s("gamedev"), s("engine")]);
    assert_eq!(c.versions, vec![s("0.9.0"), s("0.8.0")]);
    let c = db.get_crate("serde").unwrap().unwrap();
    assert_eq!(c.downloads, 99);
    assert_eq!(c.repo_url, None);
}

#[test]
fn record_comes_from_last_named_row() {
    let mut db = fixture();
    // with two rows of one name, the record is drawn from the later one
    db.crates.push(krate("5", "bevy_egui", "12", "", ""));
    let c = db.get_crate("bevy_egui").unwrap().unwrap();
    assert_eq!(c.crate_id, "5");
    assert_eq!(c.downloads, 12);
}

#[test]
fn repeated_calls_agree() {
    let db = fixture();
    assert_eq!(get_versions(&db, s("bevy_egui"), false), get_versions(&db, s("bevy_egui"), false));
    let a = get_rev_dependency(&db, "bevy_egui", "bevy").unwrap();
    let b = get_rev_dependency(&db, "bevy_egui", "bevy").unwrap();
    assert_eq!(a, b);
    assert_eq!(db.get_keywords("1"), db.get_keywords("1"));
}

#[test]
fn config_read_outcome() {
    assert_eq!(CONFIG_PATH, "fake_file");
    assert!(read_config(Ok(())).is_ok());
    let e = read_config(Err(s("No such file or directory"))).unwrap_err();
    assert_eq!(e.context, "Unable to read config");
    assert_eq!(e.cause, "No such file or directory");
    assert_eq!(e.suggestion, "Double-check that the file exist in the current path");
}

#[test]
fn bevy_plugins_once_per_name() {
    let mut db = fixture();
    db.crates.push(krate("6", "Bevy_Tween", "1", "", ""));
    db.crates.push(krate("7", "ebev", "1", "", ""));
    db.dependencies.push(dep("105", "30", "6", "^0.1", "0"));
    db.dependencies.push(dep("106", "30", "7", "^0.1", "0"));
    db.dependencies.push(dep("107", "30", "6", "^0.2", "2"));
    assert_eq!(
        get_bevy_plugins_naive(&db),
        pairs(&[("100", "bevy"), ("105", "Bevy_Tween")])
    );
}

#[test]
fn bevy_plugins_by_prefix() {
    let mut db = fixture();
    db.crates.push(krate("6", "Bevy_Tween", "1", "", ""));
    db.crates.push(krate("7", "my_bevy_ui", "1", "", ""));
    db.dependencies.push(dep("105", "30", "6", "^0.1", "0"));
    db.dependencies.push(dep("106", "30", "7", "^0.1", "0"));
    // "bevy" itself has nothing after the prefix, and "my_bevy_ui" does not start with it
    assert_eq!(get_bevy_plugins(&db), pairs(&[("105", "Bevy_Tween")]));
    assert_eq!(
        get_bevy_plugins_naive(&db),
        pairs(&[("100", "bevy"), ("105", "Bevy_Tween"), ("106", "my_bevy_ui")])
    );
}

#[test]
fn engine_crates_by_homepage_and_repository() {
    let mut db = fixture();
    db.crates.push(krate(
        "8",
        "bevy_render",
        "5",
        "https://bevyengine.org",
        "https://github.com/bevyengine/bevy",
    ));
    db.crates.push(krate("9", "bevy_fake", "5", "https://bevyengine.org", ""));
    assert_eq!(get_bevy_crates(&db), pairs(&[("1", "bevy"), ("8", "bevy_render")]));
}

#[test]
fn reverse_dependencies_onto_engine() {
    let mut db = fixture();
    db.crates.push(krate(
        "8",
        "bevy_render",
        "5",
        "https://bevyengine.org",
        "https://github.com/bevyengine/bevy",
    ));
    db.dependencies.push(dep("108", "20", "8", "^0.9.1", "0"));
    let r = get_rev_dependencies(&db, "bevy_egui").unwrap();
    assert_eq!(r.1, "bevy_egui");
    assert_eq!(r.4, pairs(&[("^0.9", "bevy"), ("^0.9.1", "bevy_render")]));
    assert!(matches!(
        get_rev_dependencies(&db, "nope"),
        Err(Error::UnknownCrate(n)) if n == "nope"
    ));
}
