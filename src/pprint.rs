//! Formatted output: section headings and lists laid out in columns.
use colored::Colorize;
use vstd::prelude::*;
use crate::table::MAX_WIDTH;
use crate::text::{join, join_strings, pad_right, padded};

verus! {

/// Colour of the heading over the list of crates.
pub const CRATE_LIST_HEADING_COLOR: &'static str = "blue";

/// Colour of the headings of sections.
pub const SECTION_HEADING_COLOR: &'static str = "yellow";

/// Colour of the headings of enum variants.
pub const ENUM_HEADING_COLOR: &'static str = "green";

/// Relies on colored's `Colorize::color` and `Colorize::bold`: the marker
/// `::` in colour `color` and bold. Whether escape codes are written depends
/// on the terminal and the environment, so nothing is stated of the text.
#[verifier::external_body]
fn painted_marker(color: &str) -> String {
    "::".color(color).bold().to_string()
}

/// Relies on colored's `Colorize::bold`: `s` in bold. Whether escape codes
/// are written depends on the terminal and the environment, so nothing is
/// stated of the text.
#[verifier::external_body]
fn emboldened(s: &str) -> String {
    s.bold().to_string()
}

/// The heading `s` without colour: the marker `::`, a space, then `s`.
pub open spec fn plain_header(s: Seq<char>) -> Seq<char> {
    ":: "@ + s
}

/// The heading `s`: the marker `::`, a space, then `s`; where `styled`
/// holds, the marker is coloured `color` and both parts are bold.
pub fn heading(s: &str, color: &str, styled: bool) -> (r: String)
    ensures
        !styled ==> r@ == plain_header(s@),
{
    if styled {
        let mut r = painted_marker(color);
        r.append(" ");
        r.append(emboldened(s).as_str());
        r
    } else {
        let mut r = String::new();
        r.append(":: ");
        r.append(s);
        r
    }
}

/// Relies on `term_size::dimensions`: the width and height of the terminal
/// that standard output is, if it is one; nothing is known of the values.
#[verifier::external_body]
fn terminal_dimensions() -> (r: Option<(usize, usize)>) {
    term_size::dimensions()
}

/// The width to lay output out within, given the terminal's dimensions if
/// they are known.
pub fn width_or_default(dims: Option<(usize, usize)>) -> (r: usize)
    ensures
        r == match dims {
            Some((w, _)) => w,
            None => MAX_WIDTH,
        },
{
    match dims {
        Some((w, _)) => w,
        None => MAX_WIDTH,
    }
}

/// The width of the terminal, or the default width where there is none.
pub fn max_width() -> usize {
    width_or_default(terminal_dimensions())
}

/// The length of the longest of `elems`.
pub open spec fn longest(elems: Seq<Seq<char>>) -> nat
    decreases elems.len(),
{
    if elems.len() == 0 {
        0
    } else if longest(elems.drop_last()) >= elems.last().len() {
        longest(elems.drop_last())
    } else {
        elems.last().len()
    }
}

/// How many columns of width `cw` and a separating space fit within `width`;
/// at least one.
pub open spec fn per_row(width: nat, cw: nat) -> nat {
    if width / (cw + 1) >= 1 {
        width / (cw + 1)
    } else {
        1
    }
}

/// One line of columns: each element padded to `w`, separated by a space.
pub open spec fn column_line(elems: Seq<Seq<char>>, w: nat) -> Seq<char> {
    join(Seq::new(elems.len(), |i: int| pad_right(elems[i], w)), " "@)
}

/// The elements laid out `per` to a line.
pub open spec fn column_lines(elems: Seq<Seq<char>>, w: nat, per: nat) -> Seq<Seq<char>>
    decreases elems.len(),
{
    if elems.len() == 0 || per == 0 {
        Seq::empty()
    } else if elems.len() <= per {
        seq![column_line(elems, w)]
    } else {
        seq![column_line(elems.take(per as int), w)] + column_lines(elems.skip(per as int), w, per)
    }
}

/// The elements laid out in columns as wide as the longest of them, as many
/// to a line as fit within `width`.
pub open spec fn columns_text(elems: Seq<Seq<char>>, width: nat) -> Seq<char> {
    let w = longest(elems);
    join(column_lines(elems, w, per_row(width, w)), "\n"@)
}

/// One line of columns.
fn column_line_exec(elems: &Vec<String>, lo: usize, hi: usize, w: usize) -> (r: String)
    requires
        lo <= hi <= elems.len(),
    ensures
        r@ == column_line(elems.deep_view().subrange(lo as int, hi as int), w as nat),
{
    let ghost sub = elems.deep_view().subrange(lo as int, hi as int);
    let mut cells: Vec<String> = Vec::new();
    let mut i: usize = lo;
    while i < hi
        invariant
            lo <= i <= hi <= elems.len(),
            sub == elems.deep_view().subrange(lo as int, hi as int),
            cells.deep_view() == Seq::new(sub.len(), |k: int| pad_right(sub[k], w as nat)).take(
                i - lo,
            ),
        decreases hi - i,
    {
        assert(elems.deep_view()[i as int] == elems[i as int]@);
        let c = padded(elems[i].as_str(), w);
        let ghost before = cells.deep_view();
        cells.push(c);
        assert(cells.deep_view() =~= before.push(c@));
        assert(cells.deep_view() =~= Seq::new(sub.len(), |k: int| pad_right(sub[k], w as nat)).take(
            i + 1 - lo,
        ));
        i += 1;
    }
    assert(Seq::new(sub.len(), |k: int| pad_right(sub[k], w as nat)).take(hi - lo) =~= Seq::new(
        sub.len(),
        |k: int| pad_right(sub[k], w as nat),
    ));
    join_strings(&cells, " ")
}

/// The elements laid out in columns within `width`.
pub fn pprint_columns_within(elems: &Vec<String>, width: usize) -> (r: String)
    ensures
        r@ == columns_text(elems.deep_view(), width as nat),
{
    let ghost ev = elems.deep_view();
    let mut w: usize = 0;
    let mut i: usize = 0;
    while i < elems.len()
        invariant
            i <= elems.len(),
            ev == elems.deep_view(),
            w == longest(ev.take(i as int)),
        decreases elems.len() - i,
    {
        assert(ev.take(i as int + 1).drop_last() =~= ev.take(i as int));
        assert(ev.take(i as int + 1).last() == elems[i as int]@);
        let n = elems[i].as_str().unicode_len();
        if n > w {
            w = n;
        }
        i += 1;
    }
    assert(ev.take(elems.len() as int) =~= ev);
    let per: usize = if w < usize::MAX && width / (w + 1) >= 1 {
        width / (w + 1)
    } else {
        1
    };
    assert(per == per_row(width as nat, w as nat)) by {
        if w == usize::MAX {
            assert(width as nat / (w as nat + 1) == 0) by (nonlinear_arith)
                requires
                    width <= usize::MAX,
                    w == usize::MAX,
            ;
        }
    }
    let mut lines: Vec<String> = Vec::new();
    let mut k: usize = 0;
    assert(ev.skip(0) =~= ev);
    assert(lines.deep_view() + column_lines(ev, w as nat, per as nat) =~= column_lines(
        ev,
        w as nat,
        per as nat,
    ));
    while k < elems.len()
        invariant
            k <= elems.len(),
            per >= 1,
            ev == elems.deep_view(),
            lines.deep_view() + column_lines(ev.skip(k as int), w as nat, per as nat) == column_lines(
                ev,
                w as nat,
                per as nat,
            ),
        decreases elems.len() - k,
    {
        let ghost rest = ev.skip(k as int);
        let end: usize = if elems.len() - k <= per {
            elems.len()
        } else {
            k + per
        };
        let line = column_line_exec(elems, k, end, w);
        let ghost before = lines.deep_view();
        lines.push(line);
        assert(lines.deep_view() =~= before.push(line@));
        if elems.len() - k <= per {
            assert(rest =~= ev.subrange(k as int, end as int));
            assert(ev.skip(end as int) =~= Seq::<Seq<char>>::empty());
            assert(before + column_lines(rest, w as nat, per as nat) =~= before.push(line@)
                + column_lines(ev.skip(end as int), w as nat, per as nat));
        } else {
            assert(rest.take(per as int) =~= ev.subrange(k as int, end as int));
            assert(rest.skip(per as int) =~= ev.skip(end as int));
            assert(before + column_lines(rest, w as nat, per as nat) =~= before.push(line@)
                + column_lines(ev.skip(end as int), w as nat, per as nat));
        }
        k = end;
    }
    assert(ev.skip(k as int) =~= Seq::<Seq<char>>::empty());
    assert(lines.deep_view() + Seq::<Seq<char>>::empty() =~= lines.deep_view());
    join_strings(&lines, "\n")
}

/// The elements laid out in columns within the terminal's width.
pub fn pprint_as_columns(elems: &Vec<String>) -> (r: String)
    ensures
        exists|width: nat| r@ == columns_text(elems.deep_view(), width),
{
    pprint_columns_within(elems, max_width())
}

} // verus!
