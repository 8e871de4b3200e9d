use rocdoc::locate::{
    get_doc_root, without_prefix, CrateType, DocPath, Locator, QueryType, Tag, TaggedPath,
};

fn path(parts: &[&str]) -> DocPath {
    DocPath::new(parts.iter().map(|s| s.to_string()).collect())
}

fn names(v: &[&str]) -> Vec<String> {
    v.iter().map(|s| s.to_string()).collect()
}

#[test]
fn path_buf_into_symbol_type() {
    let cases = [
        ("enum.elon.html", Tag::Enum),
        ("fn.foo.html", Tag::Function),
        ("macro.makrow.html", Tag::Macro),
        ("index.html", Tag::Module),
        ("primitive.ug.html", Tag::Primitive),
        ("struct.structural.html", Tag::Struct),
        ("trait.fooable.html", Tag::Trait),
        ("constant.MAX.html", Tag::Constant),
        ("some_other_unknown.html", Tag::Unknown),
    ];
    for (name, expected) in cases.iter() {
        let p = path(&["test_resources", "foo", name]);
        assert_eq!(Tag::from(&p), *expected, "{}", name);
    }
}

#[test]
fn classification_ignores_directory() {
    let a = path(&["a", "struct.X.html"]);
    let b = path(&["", "other", "deep", "dir", "struct.X.html"]);
    assert_eq!(Tag::from(&a), Tag::from(&b));
    assert_eq!(Tag::from_file_name("Struct.X.html"), Tag::Unknown);
}

#[test]
fn without_prefix_round_trip() {
    for (t, x) in [(Tag::Struct, "File"), (Tag::Function, "a.b"), (Tag::Trait, "Read")].iter() {
        let name = format!("{}.{}.html", t.keyword(), x);
        assert_eq!(Tag::from_file_name(&name), *t);
        assert_eq!(without_prefix(&name), *x);
        let tp = TaggedPath::from(path(&["d", &name]));
        assert_eq!(tp.without_prefix.as_deref(), Some(*x));
        assert_eq!(format!("{}.{}.html", t.keyword(), tp.without_prefix.unwrap()), name);
    }
    let tp = TaggedPath::from(path(&["d", "index.html"]));
    assert_eq!(tp.tag, Tag::Module);
    assert!(tp.without_prefix.is_none());
}

#[test]
fn doc_roots() {
    let s = get_doc_root(&CrateType::StdLib, Some(path(&["", "sys"]))).unwrap();
    assert_eq!(s.as_string(), "/sys/share/doc/rust/html");
    let c = get_doc_root(&CrateType::Cargo, Some(path(&["", "proj"]))).unwrap();
    assert_eq!(c.as_string(), "/proj/target/doc");
    assert!(get_doc_root(&CrateType::Cargo, None).is_none());
}

#[test]
fn locator_from_input() {
    let cases = [
        ("std::fs::File", CrateType::StdLib, QueryType::Unknown, vec!["std", "fs", "File"]),
        (
            "std::path::PathBuf.file_name",
            CrateType::StdLib,
            QueryType::InstanceMethod,
            vec!["std", "path", "PathBuf", "file_name"],
        ),
        ("foo::Foo.bar", CrateType::Cargo, QueryType::InstanceMethod, vec!["foo", "Foo", "bar"]),
    ];
    for (query, crate_type, query_type, comps) in cases.iter() {
        let root = get_doc_root(crate_type, Some(path(&["", "base"]))).unwrap();
        let expected_root = root.as_string();
        let l = Locator::new(query.to_string(), root);
        assert_eq!(l.root.as_string(), expected_root);
        assert_eq!(l.crate_type, *crate_type);
        assert_eq!(l.query_type, *query_type);
        assert_eq!(l.components, names(comps));
    }
}

#[test]
fn locator_separates_the_method() {
    let l = Locator::new(String::from("std::path::PathBuf.file_name"), path(&["", "root"]));
    assert_eq!(l.query_dir_as_path_buf().as_string(), "std/path");
    assert_eq!(l.query_filename(), "PathBuf.html");
    assert_eq!(l.method_name(), Some(String::from("file_name")));
    let c = Locator::new(String::from("foo::Foo"), path(&["", "root"]));
    assert_eq!(c.method_name(), None);
}

#[test]
fn module_directory_resolves_to_index() {
    let l = Locator::new(String::from("std::fs"), path(&["", "r"]));
    assert_eq!(l.module_dir().as_string(), "/r/std/fs");
    let tp = l.determine_tagged_path(true, &vec![]).unwrap();
    assert_eq!(tp.path(), "/r/std/fs/index.html");
    assert_eq!(tp.tag, Tag::Module);
    assert!(tp.method_name.is_none());
}

#[test]
fn scenario_struct_file_resolves() {
    let l = Locator::new(String::from("std::fs::File"), path(&["", "r"]));
    let levels: Vec<String> = l.search_levels().iter().map(|p| p.as_string()).collect();
    assert_eq!(levels, names(&["/r/std/fs", "/r/std"]));
    let listings = vec![Some(names(&["index.html", "fn.read.html", "struct.File.html"])), None];
    let tp = l.determine_tagged_path(false, &listings).unwrap();
    assert_eq!(tp.path(), "/r/std/fs/struct.File.html");
    assert_eq!(tp.tag, Tag::Struct);
    assert_eq!(tp.file_name, "struct.File.html");
    assert_eq!(l.target_file_path(false, &listings), Some(String::from("/r/std/fs/struct.File.html")));
}

#[test]
fn scenario_method_query_resolves_to_struct_page() {
    let l = Locator::new(String::from("std::path::PathBuf.file_name"), path(&["", "r"]));
    let listings = vec![Some(names(&["struct.Path.html", "struct.PathBuf.html"]))];
    let tp = l.determine_tagged_path(false, &listings).unwrap();
    assert_eq!(tp.path(), "/r/std/path/struct.PathBuf.html");
    assert_eq!(tp.tag, Tag::Struct);
    assert_eq!(tp.method_name, Some(String::from("file_name")));
    assert_eq!(tp.kind(), Tag::Method);
}

#[test]
fn search_walks_upward_and_skips_unreadable_levels() {
    let l = Locator::new(String::from("a::b::c::Thing"), path(&["", "r"]));
    let listings = vec![None, Some(names(&["trait.Other.html"])), Some(names(&["enum.Thing.html"]))];
    let tp = l.determine_tagged_path(false, &listings).unwrap();
    assert_eq!(tp.path(), "/r/a/enum.Thing.html");
    assert_eq!(tp.tag, Tag::Enum);
}

#[test]
fn unresolved_query_gives_nothing() {
    let l = Locator::new(String::from("std::fs::Nope"), path(&["", "r"]));
    let listings = vec![Some(names(&["struct.File.html"])), Some(names(&["fs"]))];
    assert!(l.determine_tagged_path(false, &listings).is_none());
    assert!(l.target_file_path(false, &listings).is_none());
}
