use rocdoc::locate::{DocPath, Tag, TaggedPath};
use rocdoc::parse::{DocParser, RenderError};

fn tagged(name: &str, method: Option<&str>) -> TaggedPath {
    let mut tp = TaggedPath::from(DocPath::new(vec!["doc".to_string(), name.to_string()]));
    tp.method_name = method.map(String::from);
    tp
}

const STRUCT_PAGE: &str = "<html><body>\
<pre class=\"rust struct type-decl\">pub struct File { /* fields omitted */ }</pre>\
<div class=\"docblock\"><p>A reference to an open file.</p><p>It closes on drop.</p><h2>Examples</h2><p>Not shown.</p></div>\
<div class=\"impl-items\"><h4 id=\"method.open\" class=\"method\">pub fn open()[src]</h4>\
<div class=\"docblock\"><p>Opens a file.</p></div>\
<h4 id=\"method.create\" class=\"method\">pub fn create()</h4></div>\
</body></html>";

#[test]
fn struct_page_starts_with_declaration_then_summary() {
    let p = DocParser::with_layout(tagged("struct.File.html", None), STRUCT_PAGE, 90, false);
    let out = p.render(&None).unwrap();
    assert_eq!(
        out,
        "pub struct File { /* fields omitted */ }\n\nA reference to an open file.\n\nIt closes on drop.\n\npub fn open()\npub fn create()"
    );
}

#[test]
fn struct_methods_are_filtered() {
    let p = DocParser::with_layout(tagged("struct.File.html", None), STRUCT_PAGE, 90, false);
    let out = p.render(&Some(String::from("create"))).unwrap();
    assert!(out.ends_with("\n\npub fn create()"));
    assert!(!out.contains("open()"));
}

#[test]
fn invalid_filter_is_an_error() {
    let p = DocParser::with_layout(tagged("struct.File.html", None), STRUCT_PAGE, 90, false);
    assert!(matches!(p.render(&Some(String::from("[unclosed"))), Err(RenderError::InvalidPattern(_))));
}

#[test]
fn method_block_with_its_docs() {
    let p = DocParser::with_layout(tagged("struct.File.html", Some("open")), STRUCT_PAGE, 90, false);
    assert_eq!(p.render(&None).unwrap(), "pub fn open()\n\nOpens a file.");
}

#[test]
fn missing_method_is_reported() {
    let p = DocParser::with_layout(tagged("struct.PathBuf.html", Some("file_name")), STRUCT_PAGE, 90, false);
    assert_eq!(p.render(&None).unwrap(), "file_name is not method");
}

#[test]
fn enum_page_lists_variants() {
    let page = "<html><body><div class=\"docblock\"><p>An ordering.</p></div>\
<div id=\"variant.Less\" class=\"variant\">Less</div><div class=\"docblock\"><p>Smaller.</p></div>\
<div id=\"variant.Greater\" class=\"variant\">Greater</div></body></html>";
    let p = DocParser::with_layout(tagged("enum.Ordering.html", None), page, 90, false);
    assert_eq!(p.render(&None).unwrap(), "An ordering.\n\n:: Less\nSmaller.\n:: Greater");
    assert_eq!(p.render(&Some(String::from("Great"))).unwrap(), "An ordering.\n\n:: Greater");
}

const MODULE_PAGE: &str = "<html><body><div class=\"docblock\"><p>Filesystem manipulation.</p></div>\
<h2 id=\"structs\" class=\"section-header\">Structs</h2>\n<table><tr><td>File</td><td>An open\nfile.  </td></tr><tr><td>Metadata</td><td>File metadata.</td></tr></table>\
<h2 id=\"functions\" class=\"section-header\">Functions</h2>\n<table><tr><td>read</td><td>Reads a file.</td></tr></table>\
</body></html>";

#[test]
fn module_page_summary_and_tables() {
    let p = DocParser::with_layout(tagged("index.html", None), MODULE_PAGE, 90, false);
    assert_eq!(p.tag, Tag::Module);
    assert_eq!(
        p.render(&None).unwrap(),
        "Filesystem manipulation.\n\n:: structs\nFile      An open file. \nMetadata  File metadata.\n\n:: functions\nread  Reads a file."
    );
}

#[test]
fn module_without_child_modules() {
    let p = DocParser::with_layout(tagged("index.html", None), MODULE_PAGE, 90, false);
    assert_eq!(p.child_modules().unwrap(), "No child modules found");
}

#[test]
fn module_table_with_a_malformed_row() {
    let page = "<html><body><h2 id=\"modules\" class=\"section-header\">Modules</h2>\n\
<table><tr><td>a</td><td>b</td><td>c</td></tr></table></body></html>";
    let p = DocParser::with_layout(tagged("index.html", None), page, 90, false);
    assert!(matches!(p.child_modules(), Err(RenderError::MalformedTable(_))));
    assert!(matches!(p.render(&None), Err(RenderError::MalformedTable(_))));
}

#[test]
fn other_pages_show_their_summary() {
    let page = "<html><body><pre class=\"type-decl\">fn f()</pre><div class=\"docblock\"><p>Does f.</p>\n<p>Really.</p></div></body></html>";
    let p = DocParser::with_layout(tagged("fn.f.html", None), page, 90, false);
    assert_eq!(p.render(&None).unwrap(), "Does f.\n\nReally.");
}
