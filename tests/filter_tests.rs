use rocdoc::filter::{matching_lines, FilterError};

#[test]
fn no_matching_line_gives_empty_text() {
    assert_eq!(matching_lines("alpha\nbeta\ngamma", "zeta").unwrap(), "");
}

#[test]
fn every_line_matching_gives_text_back() {
    let text = "alpha\nbeta\ngamma";
    assert_eq!(matching_lines(text, "a").unwrap(), text);
}

#[test]
fn matching_lines_keep_their_order() {
    assert_eq!(matching_lines("fn open\nfn close\nstruct X\nfn read", "^fn").unwrap(), "fn open\nfn close\nfn read");
    assert_eq!(matching_lines("Read\nread\nREAD", "read").unwrap(), "read");
}

#[test]
fn invalid_pattern_is_an_error() {
    match matching_lines("a\nb", "(") {
        Err(FilterError::InvalidPattern(msg)) => assert!(!msg.is_empty()),
        Ok(s) => panic!("accepted an invalid pattern: {:?}", s),
    }
}
