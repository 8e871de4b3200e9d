use rocdoc::extract::{extract_docs, format_sig, DocItems, Function, Module};
use rocdoc::pprint::{heading, pprint_columns_within, width_or_default};
use rocdoc::text::{is_white, join_strings, replaced, split_string, trimmed, words_of};

#[test]
fn columns_fill_lines() {
    let elems: Vec<String> = ["core", "alloc", "std", "test"].iter().map(|s| s.to_string()).collect();
    assert_eq!(pprint_columns_within(&elems, 12), "core  alloc\nstd   test ");
    assert_eq!(pprint_columns_within(&elems, 3), "core \nalloc\nstd  \ntest ");
}

#[test]
fn width_defaults_without_terminal() {
    assert_eq!(width_or_default(None), 90);
    assert_eq!(width_or_default(Some((120, 40))), 120);
}

#[test]
fn render_all_items() {
    let items = DocItems {
        module: Module { name: String::from("extract"), docs: Some(String::from("Reads items.")) },
        fns: vec![
            Function { sig: String::from("fn a()"), docs: None },
            Function { sig: String::from("pub fn b(x: u8)"), docs: Some(String::from("Does b.")) },
        ],
    };
    assert_eq!(
        items.render_all(),
        "[extract]\nReads items.\n\n[Functions]\nfn a()\nDoes b.\npub fn b(x: u8)\n"
    );
    let bare = Module { name: String::from("m"), docs: None };
    assert_eq!(bare.to_string(), "[m]");
}

#[test]
fn docs_are_trimmed_and_joined() {
    let v = vec![String::from("  First line. "), String::from("\tSecond.")];
    assert_eq!(extract_docs(&v), Some(String::from("First line.\nSecond.")));
    assert_eq!(extract_docs(&vec![]), None);
}

#[test]
fn signatures_are_tidied() {
    assert_eq!(
        format_sig("pub fn f < T > (x : & T , y : Vec < u8 >) -> Option < T >"),
        "pub fn f<T>(x: &T, y: Vec<u8>) -> Option<T>"
    );
}

#[test]
fn text_helpers() {
    assert_eq!(split_string("a\n\nb", '\n'), vec!["a", "", "b"]);
    assert_eq!(words_of("  one\t two\nthree "), vec!["one", "two", "three"]);
    assert_eq!(trimmed(" \t x y \n"), "x y");
    assert_eq!(replaced("fn f()[src]\n[src]", "[src]", ""), "fn f()\n");
    assert_eq!(join_strings(&vec![String::from("a"), String::from("b")], ", "), "a, b");
}

#[test]
fn plain_heading_has_marker_and_space() {
    assert_eq!(heading("modules", "yellow", false), ":: modules");
    assert!(heading("modules", "yellow", true).contains("modules"));
}

#[test]
fn white_space_agrees_with_std() {
    for u in 0u32..0x11000 {
        if let Some(c) = char::from_u32(u) {
            assert_eq!(is_white(c), c.is_whitespace(), "U+{:04X}", u);
        }
    }
}
