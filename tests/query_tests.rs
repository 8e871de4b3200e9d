use rocdoc::query::{is_crate_root_query, Query};

fn strings(v: &[&str]) -> Vec<String> {
    v.iter().map(|s| s.to_string()).collect()
}

#[test]
fn query_from_std_symbol() {
    let q = Query::from(String::from("std::fs::File"));
    assert!(q.is_stdlib);
    assert!(!q.is_method);
    assert_eq!(q.components, strings(&["std", "fs", "File"]));
}

#[test]
fn query_from_std_method() {
    let q = Query::from(String::from("std::path::PathBuf.file_name"));
    assert!(q.is_stdlib);
    assert!(q.is_method);
    assert_eq!(q.components, strings(&["std", "path", "PathBuf", "file_name"]));
}

#[test]
fn query_from_local_method() {
    let q = Query::from(String::from("foo::Foo.bar"));
    assert!(!q.is_stdlib);
    assert!(q.is_method);
    assert_eq!(q.components, strings(&["foo", "Foo", "bar"]));
}

#[test]
fn query_drops_empty_components() {
    let q = Query::from(String::from("::a::::b..c::"));
    assert_eq!(q.components, strings(&["a", "b", "c"]));
    assert!(q.is_method);
    assert!(q.components.iter().all(|c| !c.is_empty()));
}

#[test]
fn query_of_separators_only_is_empty() {
    let q = Query::from(String::from("::.::"));
    assert!(q.components.is_empty());
    assert!(!q.is_stdlib);
    assert!(q.is_method);
}

#[test]
fn query_triple_colon_keeps_a_colon() {
    let q = Query::from(String::from("a:::b"));
    assert_eq!(q.components, strings(&["a", ":b"]));
}

#[test]
fn query_filename_and_dir() {
    let q = Query::from(String::from("std::fs::File"));
    assert_eq!(q.filename(), "File.html");
    assert_eq!(q.last_as_os_string(), "File");
    assert_eq!(q.dir_as_path_buf().as_string(), "std/fs");
}

#[test]
fn crate_root_queries_bypass_the_locator() {
    assert!(is_crate_root_query("."));
    assert!(is_crate_root_query("crate"));
    assert!(!is_crate_root_query("std"));
    assert!(!is_crate_root_query(".."));
}
