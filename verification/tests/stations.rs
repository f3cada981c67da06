use radioboat::import::{
    expand_path, gather_imports, import_error_message, resolve_source, SourceLocation,
};
use radioboat::station::{mark_local, mark_stations, merge_stations, sort_by_keys, Config, Import, Station};

fn st(name: &str, url: &str) -> Station {
    Station { name: name.to_string(), url: url.to_string(), is_remote: false, source: String::new() }
}

fn names(list: &[Station]) -> Vec<String> {
    list.iter().map(|s| s.name.clone()).collect()
}

#[test]
fn merge_sorts_case_insensitively() {
    let local = vec![st("beta", "u1"), st("Alpha", "u2")];
    let remote = vec![st("charlie", "u3"), st("ALPHA two", "u4")];
    let merged = merge_stations(local, remote);
    assert_eq!(names(&merged), vec!["Alpha", "ALPHA two", "beta", "charlie"]);
}

#[test]
fn merge_local_overrides_remote_with_same_url() {
    let local = vec![st("Jazz FM", "http://jazz")];
    let remote = vec![st("Jazz Remote", "http://jazz"), st("Deep House", "http://deep")];
    let merged = merge_stations(local, remote);
    assert_eq!(names(&merged), vec!["Deep House", "Jazz FM"]);
}

#[test]
fn merge_keeps_last_remote_with_repeated_url() {
    let local = vec![];
    let remote = vec![st("First", "http://same"), st("Second", "http://same")];
    let merged = merge_stations(local, remote);
    assert_eq!(names(&merged), vec!["Second"]);
}

#[test]
fn merge_is_stable_for_equal_names() {
    let local = vec![st("Rock", "a"), st("rock", "b")];
    let remote = vec![st("ROCK", "c")];
    let merged = merge_stations(local, remote);
    let urls: Vec<String> = merged.iter().map(|s| s.url.clone()).collect();
    assert_eq!(urls, vec!["a", "b", "c"]);
}

#[test]
fn merge_of_nothing_is_empty() {
    assert!(merge_stations(vec![], vec![]).is_empty());
}

#[test]
fn merge_orders_by_code_point_after_lowercasing() {
    let local = vec![st("Zebra", "1"), st("Éclair", "2"), st("apple", "3"), st("10 Hits", "4")];
    let merged = merge_stations(local, vec![]);
    assert_eq!(names(&merged), vec!["10 Hits", "apple", "Zebra", "Éclair"]);
}

#[test]
fn marking_local_stations() {
    let mut list = vec![st("A", "a"), st("B", "b")];
    list[1].is_remote = true;
    mark_local(&mut list);
    for s in &list {
        assert!(!s.is_remote);
        assert_eq!(s.source, "local");
    }
    assert_eq!(names(&list), vec!["A", "B"]);
}

#[test]
fn marking_imported_stations() {
    let mut list = vec![st("A", "a")];
    mark_stations(&mut list, true, "My List");
    assert!(list[0].is_remote);
    assert_eq!(list[0].source, "My List");
    assert_eq!(list[0].url, "a");
}

#[test]
fn gathering_imports_tags_stations_and_reports_errors() {
    let imports = vec![
        Import { name: "one".to_string(), url: "u1".to_string() },
        Import { name: "two".to_string(), url: "u2".to_string() },
        Import { name: "three".to_string(), url: "u3".to_string() },
    ];
    let results = vec![
        Ok(vec![st("A", "a"), st("B", "b")]),
        Err("connection refused".to_string()),
        Ok(vec![st("C", "c")]),
    ];
    let (stations, errors) = gather_imports(&imports, results);
    assert_eq!(names(&stations), vec!["A", "B", "C"]);
    assert!(stations.iter().all(|s| s.is_remote));
    assert_eq!(stations[0].source, "one");
    assert_eq!(stations[2].source, "three");
    assert_eq!(errors, vec!["Failed to import 'two': connection refused".to_string()]);
}

#[test]
fn gathering_no_imports() {
    let (stations, errors) = gather_imports(&vec![], vec![]);
    assert!(stations.is_empty());
    assert!(errors.is_empty());
}

#[test]
fn import_error_text() {
    assert_eq!(import_error_message("List", "boom"), "Failed to import 'List': boom");
}

#[test]
fn web_sources_are_recognised() {
    match resolve_source("https://example.com/stations.toml") {
        SourceLocation::Web(u) => assert_eq!(u, "https://example.com/stations.toml"),
        SourceLocation::File(_) => panic!("expected a web address"),
    }
    match resolve_source("http://example.com/s.toml") {
        SourceLocation::Web(u) => assert_eq!(u, "http://example.com/s.toml"),
        SourceLocation::File(_) => panic!("expected a web address"),
    }
}

#[test]
fn file_sources_are_recognised() {
    match resolve_source("./remote.toml") {
        SourceLocation::File(p) => assert_eq!(p, "./remote.toml"),
        SourceLocation::Web(_) => panic!("expected a file"),
    }
    match resolve_source("ftp://example.com/x") {
        SourceLocation::File(p) => assert_eq!(p, "ftp://example.com/x"),
        SourceLocation::Web(_) => panic!("expected a file"),
    }
}

#[test]
fn tilde_expansion() {
    assert_eq!(expand_path("/etc/radioboat.toml"), "/etc/radioboat.toml");
    assert_eq!(expand_path("~other/x.toml"), "~other/x.toml");
    let e = expand_path("~/x.toml");
    assert!(e == "~/x.toml" || (e.ends_with("/x.toml") && !e.starts_with('~')));
}

#[test]
fn default_config() {
    let c = Config::default();
    assert_eq!(c.volume, 80);
    assert!(!c.muted);
    assert!(c.imports.is_empty());
    assert!(c.stations.is_empty());
}

#[test]
fn merging_again_changes_nothing() {
    let local = vec![st("Jazz FM", "http://jazz"), st("beta", "u1")];
    let remote = vec![
        st("Jazz Remote", "http://jazz"),
        st("First", "http://same"),
        st("alpha", "u9"),
        st("Second", "http://same"),
    ];
    let once = merge_stations(local, remote.clone());
    let twice = merge_stations(once.clone(), remote);
    assert_eq!(once.len(), twice.len());
    for (a, b) in once.iter().zip(twice.iter()) {
        assert_eq!((&a.name, &a.url, a.is_remote, &a.source), (&b.name, &b.url, b.is_remote, &b.source));
    }
    assert_eq!(names(&once), vec!["alpha", "beta", "Jazz FM", "Second"]);
}

#[test]
fn sorting_by_given_keys_is_stable() {
    let list = vec![st("b", "1"), st("a", "2"), st("B", "3"), st("c", "4")];
    let keys: Vec<Vec<char>> = ["x", "a", "x", "b"].iter().map(|k| k.chars().collect()).collect();
    let (out, out_keys) = sort_by_keys(&list, &keys);
    assert_eq!(names(&out), vec!["a", "c", "b", "B"]);
    let ks: Vec<String> = out_keys.iter().map(|k| k.iter().collect()).collect();
    assert_eq!(ks, vec!["a", "b", "x", "x"]);
}
