//! Keeps the lines of a text that a regular expression matches.
use grep::matcher::Matcher;
use vstd::prelude::*;
use crate::text::{join, join_strings, lemma_join_split, lines, split_string};

verus! {

#[verifier::external_type_specification]
#[verifier::external_body]
pub struct ExRegexError(grep::regex::Error);

/// Whether `pattern` is a regular expression that grep's matcher accepts.
pub uninterp spec fn pattern_compiles(pattern: Seq<char>) -> bool;

/// Whether the regular expression `pattern` matches somewhere in `line`.
pub uninterp spec fn pattern_matches(pattern: Seq<char>, line: Seq<char>) -> bool;

/// Relies on `grep::regex::RegexMatcher::new`: whether the pattern compiles
/// depends on the pattern alone.
#[verifier::external_body]
fn compile(pattern: &str) -> (r: Result<(), grep::regex::Error>)
    ensures
        r is Ok == pattern_compiles(pattern@),
{
    grep::regex::RegexMatcher::new(pattern).map(|_| ())
}

/// Relies on `grep::matcher::Matcher::is_match` of a `RegexMatcher` built
/// from `pattern`: whether the expression matches somewhere in `line`, which
/// depends on the two texts alone.
#[verifier::external_body]
fn line_matches(pattern: &str, line: &str) -> (r: bool)
    requires
        pattern_compiles(pattern@),
    ensures
        r == pattern_matches(pattern@, line@),
{
    match grep::regex::RegexMatcher::new(pattern) {
        Ok(m) => m.is_match(line.as_bytes()).unwrap_or(false),
        Err(_) => false,
    }
}

/// Relies on the `Display` text of grep's regex error.
#[verifier::external_body]
fn error_text(e: &grep::regex::Error) -> (r: String) {
    e.to_string()
}

/// Why a filter could not be applied.
#[derive(Debug)]
pub enum FilterError {
    /// The pattern is not a valid regular expression; the text says why.
    InvalidPattern(String),
}

/// Checks that `pattern` is a valid regular expression.
pub fn check_pattern(pattern: &str) -> (r: Result<(), FilterError>)
    ensures
        r is Ok <==> pattern_compiles(pattern@),
{
    match compile(pattern) {
        Err(e) => Err(FilterError::InvalidPattern(error_text(&e))),
        Ok(()) => Ok(()),
    }
}

/// The lines of `ls` that `pattern` matches, in their order.
pub open spec fn keep_matching(pattern: Seq<char>, ls: Seq<Seq<char>>) -> Seq<Seq<char>>
    decreases ls.len(),
{
    if ls.len() == 0 {
        Seq::empty()
    } else if pattern_matches(pattern, ls.last()) {
        keep_matching(pattern, ls.drop_last()).push(ls.last())
    } else {
        keep_matching(pattern, ls.drop_last())
    }
}

/// The lines of `s` that `pattern` matches, in their order, joined by line feeds.
pub open spec fn filtered(pattern: Seq<char>, s: Seq<char>) -> Seq<char> {
    join(keep_matching(pattern, lines(s)), "\n"@)
}

/// The lines of `s` that the regular expression `pattern` matches, in the
/// order they come in `s`, joined by line feeds; an error where the pattern is not a
/// valid regular expression.
pub fn matching_lines(s: &str, pattern: &str) -> (r: Result<String, FilterError>)
    ensures
        r is Ok <==> pattern_compiles(pattern@),
        r is Ok ==> r->Ok_0@ == filtered(pattern@, s@),
{
    match compile(pattern) {
        Err(e) => {
            return Err(FilterError::InvalidPattern(error_text(&e)));
        },
        Ok(()) => {},
    }
    let ls = split_string(s, '\n');
    let ghost lv = ls.deep_view();
    let mut kept: Vec<String> = Vec::new();
    let mut i: usize = 0;
    while i < ls.len()
        invariant
            i <= ls.len(),
            lv == ls.deep_view(),
            lv == lines(s@),
            pattern_compiles(pattern@),
            kept.deep_view() == keep_matching(pattern@, lv.take(i as int)),
        decreases ls.len() - i,
    {
        assert(lv.take(i as int + 1).drop_last() =~= lv.take(i as int));
        assert(lv.take(i as int + 1).last() == ls[i as int]@);
        if line_matches(pattern, ls[i].as_str()) {
            let ghost before = kept.deep_view();
            let line = ls[i].clone();
            kept.push(line);
            assert(kept.deep_view() =~= before.push(line@));
        }
        i += 1;
    }
    assert(lv.take(ls.len() as int) =~= lv);
    Ok(join_strings(&kept, "\n"))
}

/// Keeps `ls` whole when the pattern matches each of its lines.
proof fn lemma_keep_all(pattern: Seq<char>, ls: Seq<Seq<char>>)
    requires
        forall|i: int| 0 <= i < ls.len() ==> pattern_matches(pattern, #[trigger] ls[i]),
    ensures
        keep_matching(pattern, ls) == ls,
    decreases ls.len(),
{
    if ls.len() > 0 {
        assert forall|i: int| 0 <= i < ls.drop_last().len() implies pattern_matches(
            pattern,
            #[trigger] ls.drop_last()[i],
        ) by {
            assert(ls.drop_last()[i] == ls[i]);
        }
        lemma_keep_all(pattern, ls.drop_last());
        assert(pattern_matches(pattern, ls[ls.len() - 1]));
        assert(ls.drop_last().push(ls.last()) =~= ls);
    }
}

/// Keeps nothing of `ls` when the pattern matches none of its lines.
proof fn lemma_keep_none(pattern: Seq<char>, ls: Seq<Seq<char>>)
    requires
        forall|i: int| 0 <= i < ls.len() ==> !pattern_matches(pattern, #[trigger] ls[i]),
    ensures
        keep_matching(pattern, ls) == Seq::<Seq<char>>::empty(),
    decreases ls.len(),
{
    if ls.len() > 0 {
        assert forall|i: int| 0 <= i < ls.drop_last().len() implies !pattern_matches(
            pattern,
            #[trigger] ls.drop_last()[i],
        ) by {
            assert(ls.drop_last()[i] == ls[i]);
        }
        lemma_keep_none(pattern, ls.drop_last());
        assert(!pattern_matches(pattern, ls[ls.len() - 1]));
    }
}

/// Filtering with a pattern that matches no line of the text gives the empty
/// text; filtering with one that matches every line gives the text back.
pub proof fn lemma_filter_none_or_all(pattern: Seq<char>, s: Seq<char>)
    ensures
        (forall|i: int| 0 <= i < lines(s).len() ==> !pattern_matches(pattern, #[trigger] lines(s)[i]))
            ==> filtered(pattern, s) == Seq::<char>::empty(),
        (forall|i: int| 0 <= i < lines(s).len() ==> pattern_matches(pattern, #[trigger] lines(s)[i]))
            ==> filtered(pattern, s) == s,
{
    if forall|i: int| 0 <= i < lines(s).len() ==> !pattern_matches(pattern, #[trigger] lines(s)[i]) {
        lemma_keep_none(pattern, lines(s));
    }
    if forall|i: int| 0 <= i < lines(s).len() ==> pattern_matches(pattern, #[trigger] lines(s)[i]) {
        lemma_keep_all(pattern, lines(s));
        lemma_join_split(s, '\n', Seq::empty());
        reveal_strlit("\n");
        assert("\n"@ =~= seq!['\n']);
        assert(Seq::<char>::empty() + s =~= s);
    }
}

} // verus!
