use rocdoc::table::Table;

fn row(a: &str, b: &str) -> Vec<String> {
    vec![a.to_string(), b.to_string()]
}

#[test]
fn single_row_fits_on_one_line() {
    let t = Table::from_rows(vec![row("fs", "Filesystem manipulation operations.")]);
    assert_eq!(t.as_string(), "fs  Filesystem manipulation operations.");
}

#[test]
fn columns_are_left_justified_to_the_widest_cell() {
    let t = Table::from_rows(vec![row("a", "first"), row("long", "second one")]);
    assert_eq!(t.as_string(), "a     first     \nlong  second one");
}

#[test]
fn add_row_widens_columns() {
    let mut t = Table::with_max_width(90);
    t.add_row(row("ab", "c"));
    t.add_row(row("a", "cdef"));
    assert_eq!(t.as_string(), "ab  c   \na   cdef");
}

#[test]
fn wide_row_wraps_within_width() {
    let mut t = Table::with_max_width(20);
    t.add_row(row("name", "one two three four five six"));
    let s = t.as_string();
    assert_eq!(s, "name  one two three\n      four five six");
    for line in s.lines() {
        assert!(line.len() <= 20, "{:?}", line);
    }
}

#[test]
fn over_long_word_is_written_whole() {
    let mut t = Table::with_max_width(12);
    t.add_row(row("k", "short extraordinarily long"));
    let s = t.as_string();
    assert_eq!(s, "k  short\n   extraordinarily\n   long");
    for line in s.lines() {
        assert!(line.len() <= 12 || line.trim() == "extraordinarily");
    }
}

#[test]
fn empty_table_renders_nothing() {
    assert_eq!(Table::new().as_string(), "");
}
