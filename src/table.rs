//! A very simple plain text table that does not permit removal of rows.
//! Cells are left justified; a two-column row too wide for the output is
//! word-wrapped under its second column.
use vstd::prelude::*;
use crate::text::{copy_range, join, join_strings, pad_right, padded, push_spaces, spaces, words, words_of};

verus! {

/// Default maximum output width when pretty printing.
pub const MAX_WIDTH: usize = 90;

/// Space between columns when pretty printing.
pub const SPACER: &'static str = "  ";

/// Width of the column `i` after a row with cells `cells` is added to columns
/// of widths `ws`.
pub open spec fn grown_width(ws: Seq<nat>, cells: Seq<Seq<char>>, i: int) -> nat {
    let a: nat = if i < ws.len() { ws[i] } else { 0 };
    let b: nat = if i < cells.len() { cells[i].len() } else { 0 };
    if a >= b { a } else { b }
}

/// The column widths after a row with cells `cells` is added to columns of
/// widths `ws`.
pub open spec fn grow(ws: Seq<nat>, cells: Seq<Seq<char>>) -> Seq<nat> {
    let n: nat = if ws.len() >= cells.len() { ws.len() } else { cells.len() };
    Seq::new(n, |i: int| grown_width(ws, cells, i))
}

/// The column widths of a table with the given rows: as many columns as the
/// widest row has cells, each as wide as its longest cell.
pub open spec fn widths_of(rows: Seq<Seq<Seq<char>>>) -> Seq<nat>
    decreases rows.len(),
{
    if rows.len() == 0 {
        Seq::empty()
    } else {
        grow(widths_of(rows.drop_last()), rows.last())
    }
}

/// What goes before the next word on a line: nothing where the line holds
/// no word yet, otherwise a space.
pub open spec fn word_sep(fresh: bool) -> Seq<char> {
    if fresh {
        Seq::empty()
    } else {
        " "@
    }
}

/// The lines of a wrapped second column: `cur` is the line begun so far
/// (`fresh` where it holds no word yet); each further word goes on it while
/// the line stays under `max`, otherwise it starts a new line after `indent`.
pub open spec fn wrap_lines(
    cur: Seq<char>,
    ws: Seq<Seq<char>>,
    indent: Seq<char>,
    max: nat,
    fresh: bool,
) -> Seq<Seq<char>>
    decreases ws.len(),
{
    if ws.len() == 0 {
        seq![cur]
    } else if cur.len() + word_sep(fresh).len() + ws[0].len() < max {
        wrap_lines(cur + word_sep(fresh) + ws[0], ws.skip(1), indent, max, false)
    } else {
        seq![cur] + wrap_lines(indent + ws[0], ws.skip(1), indent, max, false)
    }
}

/// The first column of a wrapped row: the first cell padded to its column,
/// then the spacer.
pub open spec fn first_column(c0: Seq<char>, w0: nat) -> Seq<char> {
    pad_right(c0, w0) + "  "@
}

/// The indentation of the continuation lines of a wrapped row: up to the
/// column where the second cell starts.
pub open spec fn wrap_indent(w0: nat) -> Seq<char> {
    spaces(w0 + 2)
}

/// The lines of a wrapped two-cell row.
pub open spec fn wrapped_row_lines(c0: Seq<char>, c1: Seq<char>, w0: nat, max: nat) -> Seq<
    Seq<char>,
> {
    wrap_lines(first_column(c0, w0), words(c1), wrap_indent(w0), max, true)
}

/// A two-cell row laid out with column widths `w0` and `w1`: on one line where
/// both columns and the spacer fit within `max`, otherwise word-wrapped.
pub open spec fn row_text(c0: Seq<char>, c1: Seq<char>, w0: nat, w1: nat, max: nat) -> Seq<char> {
    if w0 + w1 + 2 <= max {
        pad_right(c0, w0) + "  "@ + pad_right(c1, w1)
    } else {
        join(wrapped_row_lines(c0, c1, w0, max), "\n"@)
    }
}

/// The text of each row of a table of two-cell rows laid out within `max`
/// columns.
pub open spec fn row_texts(rows: Seq<Seq<Seq<char>>>, max: nat) -> Seq<Seq<char>> {
    let ws = widths_of(rows);
    Seq::new(rows.len(), |i: int| row_text(rows[i][0], rows[i][1], ws[0], ws[1], max))
}

/// A table of two-cell rows laid out within `max` columns, one row after
/// the other.
pub open spec fn table_text(rows: Seq<Seq<Seq<char>>>, max: nat) -> Seq<char> {
    join(row_texts(rows, max), "\n"@)
}

/// Whether every row has exactly two cells.
pub open spec fn all_two_cells(rows: Seq<Seq<Seq<char>>>) -> bool {
    forall|i: int| 0 <= i < rows.len() ==> (#[trigger] rows[i]).len() == 2
}

/// A single row within a table layout.
struct Row {
    cells: Vec<String>,
}

/// The abstract content of a table.
pub struct TableView {
    /// The cells of each row, in the order added.
    pub rows: Seq<Seq<Seq<char>>>,
    /// The width that the table's text is laid out within.
    pub max_width: nat,
}

/// A very simple plain text table that knows the width of each of its columns.
pub struct Table {
    rows: Vec<Row>,
    column_widths: Vec<usize>,
    max_width: usize,
}

impl View for Table {
    type V = TableView;

    closed spec fn view(&self) -> TableView {
        TableView {
            rows: self.rows@.map_values(|r: Row| r.cells.deep_view()),
            max_width: self.max_width as nat,
        }
    }
}

impl Table {
    /// The tracked column widths are those of the rows added.
    pub closed spec fn wf(&self) -> bool {
        self.column_widths@.map_values(|w: usize| w as nat) == widths_of(self@.rows)
    }

    /// A new empty table laid out within the default width.
    pub fn new() -> (r: Table)
        ensures
            r.wf(),
            r@.rows == Seq::<Seq<Seq<char>>>::empty(),
            r@.max_width == MAX_WIDTH,
    {
        Table::with_max_width(MAX_WIDTH)
    }

    /// A new empty table laid out within `max_width` columns.
    pub fn with_max_width(max_width: usize) -> (r: Table)
        ensures
            r.wf(),
            r@.rows == Seq::<Seq<Seq<char>>>::empty(),
            r@.max_width == max_width,
    {
        let r = Table { rows: Vec::new(), column_widths: Vec::new(), max_width };
        assert(r@.rows =~= Seq::<Seq<Seq<char>>>::empty());
        assert(r.column_widths@.map_values(|w: usize| w as nat) =~= Seq::<nat>::empty());
        r
    }

    /// A table of the given rows, laid out within the default width.
    pub fn from_rows(rows: Vec<Vec<String>>) -> (r: Table)
        ensures
            r.wf(),
            r@.rows == rows.deep_view(),
            r@.max_width == MAX_WIDTH,
    {
        Table::from_rows_within(rows, MAX_WIDTH)
    }

    /// A table of the given rows, laid out within `max_width` columns.
    pub fn from_rows_within(rows: Vec<Vec<String>>, max_width: usize) -> (r: Table)
        ensures
            r.wf(),
            r@.rows == rows.deep_view(),
            r@.max_width == max_width,
    {
        let mut t = Table::with_max_width(max_width);
        let ghost all = rows.deep_view();
        let mut i: usize = 0;
        let n = rows.len();
        while i < n
            invariant
                i <= n == all.len() == rows.len(),
                all == rows.deep_view(),
                t.wf(),
                t@.max_width == max_width,
                t@.rows == all.take(i as int),
            decreases n - i,
        {
            let cells = copy_range(&rows[i], 0, rows[i].len());
            assert(cells.deep_view() =~= all[i as int]);
            t.add_row(cells);
            assert(all.take(i as int).push(all[i as int]) =~= all.take(i as int + 1));
            i += 1;
        }
        assert(all.take(n as int) =~= all);
        t
    }

    /// Adds a row and widens the columns that it needs widened.
    pub fn add_row(&mut self, cells: Vec<String>)
        requires
            old(self).wf(),
        ensures
            final(self).wf(),
            final(self)@.rows == old(self)@.rows.push(cells.deep_view()),
            final(self)@.max_width == old(self)@.max_width,
    {
        let ghost ws = self.column_widths@.map_values(|w: usize| w as nat);
        let ghost cv = cells.deep_view();
        while self.column_widths.len() < cells.len()
            invariant
                ws == old(self).column_widths@.map_values(|w: usize| w as nat),
                self.column_widths.len() >= ws.len(),
                self.column_widths.len() == ws.len() || self.column_widths.len() <= cells.len(),
                forall|i: int| 0 <= i < ws.len() ==> self.column_widths@[i] as nat == ws[i],
                forall|i: int| ws.len() <= i < self.column_widths.len() ==> self.column_widths@[i] == 0,
                self.rows == old(self).rows,
                self.max_width == old(self).max_width,
            decreases cells.len() - self.column_widths.len(),
        {
            self.column_widths.push(0);
        }
        let mut i: usize = 0;
        while i < cells.len()
            invariant
                i <= cells.len() <= self.column_widths.len(),
                cv == cells.deep_view(),
                ws == old(self).column_widths@.map_values(|w: usize| w as nat),
                self.column_widths.len() == grow(ws, cv).len(),
                forall|j: int| 0 <= j < i ==> self.column_widths@[j] as nat == grown_width(ws, cv, j),
                forall|j: int| i <= j < self.column_widths.len() ==> self.column_widths@[j] as nat
                    == (if j < ws.len() { ws[j] } else { 0 }),
                self.rows == old(self).rows,
                self.max_width == old(self).max_width,
            decreases cells.len() - i,
        {
            let len = cells[i].as_str().unicode_len();
            assert(cv[i as int] == cells[i as int]@);
            if len > self.column_widths[i] {
                self.column_widths.set(i, len);
            }
            i += 1;
        }
        let ghost before = self@.rows;
        self.rows.push(Row { cells });
        assert(self@.rows =~= before.push(cv));
        assert(self.column_widths@.map_values(|w: usize| w as nat) =~= grow(ws, cv));
        assert(self@.rows.drop_last() =~= before);
    }

    /// This table as a left justified, column aligned string.
    pub fn as_string(&self) -> (r: String)
        requires
            self.wf(),
            all_two_cells(self@.rows),
        ensures
            r@ == table_text(self@.rows, self@.max_width),
    {
        let ghost rows = self@.rows;
        let ghost ws = widths_of(rows);
        let mut out: Vec<String> = Vec::new();
        let mut i: usize = 0;
        if self.rows.len() > 0 {
            proof {
                lemma_widths_len(rows);
            }
        }
        while i < self.rows.len()
            invariant
                i <= self.rows.len() == rows.len(),
                self.wf(),
                rows == self@.rows,
                ws == widths_of(rows),
                all_two_cells(rows),
                rows.len() > 0 ==> ws.len() == 2,
                out.deep_view() == row_texts(rows, self@.max_width).take(i as int),
            decreases self.rows.len() - i,
        {
            assert(rows[i as int] == self.rows[i as int].cells.deep_view());
            assert(self.column_widths@.map_values(|w: usize| w as nat)[0] == ws[0]);
            assert(self.column_widths@.map_values(|w: usize| w as nat)[1] == ws[1]);
            assert(rows[i as int][0] == self.rows[i as int].cells[0]@);
            assert(rows[i as int][1] == self.rows[i as int].cells[1]@);
            let line = self.rows[i].two_column_wrapped(&self.column_widths, self.max_width);
            assert(self.column_widths@[0] as nat == ws[0]);
            assert(self.column_widths@[1] as nat == ws[1]);
            assert(line@ == row_text(rows[i as int][0], rows[i as int][1], ws[0], ws[1], self@.max_width));

            let ghost before = out.deep_view();
            out.push(line);
            assert(out.deep_view() =~= before.push(line@));
            assert(row_texts(rows, self@.max_width).take(i as int + 1) =~= row_texts(
                rows,
                self@.max_width,
            ).take(i as int).push(line@));
            i += 1;
        }
        assert(row_texts(rows, self@.max_width).take(rows.len() as int) =~= row_texts(
            rows,
            self@.max_width,
        ));
        join_strings(&out, "\n")
    }
}

impl Row {
    /// The row laid out with the given column widths within `max`.
    fn two_column_wrapped(&self, column_widths: &Vec<usize>, max: usize) -> (r: String)
        requires
            self.cells.len() == 2,
            column_widths.len() == 2,
        ensures
            r@ == row_text(
                self.cells[0]@,
                self.cells[1]@,
                column_widths[0] as nat,
                column_widths[1] as nat,
                max as nat,
            ),
    {
        let w0 = column_widths[0];
        let w1 = column_widths[1];
        if w0 <= max && w1 <= max - w0 && 2 <= max - w0 - w1 {
            let mut r = padded(self.cells[0].as_str(), w0);
            r.append(SPACER);
            r.append(padded(self.cells[1].as_str(), w1).as_str());
            proof {
                reveal_strlit("  ");
            }
            return r;
        }
        let mut current = padded(self.cells[0].as_str(), w0);
        current.append(SPACER);
        let ghost init = current@;
        let ghost indent = wrap_indent(w0 as nat);
        let ws = words_of(self.cells[1].as_str());
        let mut lines: Vec<String> = Vec::new();
        let mut i: usize = 0;
        let mut cur_len: usize = current.as_str().unicode_len();
        let mut fresh = true;
        assert(ws.deep_view().skip(0) =~= ws.deep_view());
        assert(lines.deep_view() + wrap_lines(init, ws.deep_view(), indent, max as nat, true)
            =~= wrap_lines(init, ws.deep_view(), indent, max as nat, true));
        while i < ws.len()
            invariant
                i <= ws.len(),
                cur_len == current@.len(),
                w0 <= usize::MAX,
                lines.deep_view() + wrap_lines(
                    current@,
                    ws.deep_view().skip(i as int),
                    indent,
                    max as nat,
                    fresh,
                ) == wrap_lines(init, ws.deep_view(), indent, max as nat, true),
                indent == wrap_indent(w0 as nat),
            decreases ws.len() - i,
        {
            let ghost rest = ws.deep_view().skip(i as int);
            assert(rest.skip(1) =~= ws.deep_view().skip(i as int + 1));
            assert(rest[0] == ws[i as int]@);
            let wl = ws[i].as_str().unicode_len();
            let sl: usize = if fresh { 0 } else { 1 };
            proof {
                reveal_strlit(" ");
            }
            if cur_len < max && wl < max - cur_len && sl < max - cur_len - wl {
                let ghost was = current@;
                if !fresh {
                    current.append(" ");
                }
                current.append(ws[i].as_str());
                assert(current@ =~= was + word_sep(fresh) + rest[0]);
                cur_len = cur_len + sl + wl;
                fresh = false;
            } else {
                let ghost before = lines.deep_view();
                let line = current;
                lines.push(line);
                assert(lines.deep_view() =~= before.push(line@));
                let mut next = String::new();
                push_spaces(&mut next, w0);
                push_spaces(&mut next, 2);
                next.append(ws[i].as_str());
                current = next;
                assert(spaces(w0 as nat) + spaces(2) =~= spaces(w0 as nat + 2));
                assert(lines.deep_view() + wrap_lines(current@, rest.skip(1), indent, max as nat, false)
                    =~= before + (seq![line@] + wrap_lines(
                    current@,
                    rest.skip(1),
                    indent,
                    max as nat,
                    false,
                )));
                cur_len = current.as_str().unicode_len();
                fresh = false;
            }
            i += 1;
        }
        let ghost before = lines.deep_view();
        let line = current;
        lines.push(line);
        assert(lines.deep_view() =~= before.push(line@));
        assert(ws.deep_view().skip(i as int) =~= Seq::<Seq<char>>::empty());
        assert(before + seq![line@] =~= before.push(line@));
        proof {
            reveal_strlit("  ");
        }
        join_strings(&lines, "\n")
    }
}

/// A table with at least one row has a column per cell of its widest row.
proof fn lemma_widths_len(rows: Seq<Seq<Seq<char>>>)
    requires
        rows.len() > 0,
        all_two_cells(rows),
    ensures
        widths_of(rows).len() == 2,
    decreases rows.len(),
{
    if rows.len() > 1 {
        assert(all_two_cells(rows.drop_last())) by {
            assert forall|i: int| 0 <= i < rows.drop_last().len() implies (#[trigger] rows.drop_last()[i]).len() == 2 by {
                assert(rows.drop_last()[i] == rows[i]);
            }
        }
        lemma_widths_len(rows.drop_last());
    } else {
        assert(rows.drop_last().len() == 0);
    }
    assert(rows.last() == rows[rows.len() - 1]);
    assert(widths_of(rows) == grow(widths_of(rows.drop_last()), rows.last()));
}

/// A table of one two-cell row that fits within the width is that row on one
/// line: the two cells left-justified, separated by the spacer.
pub proof fn lemma_single_row_one_line(c0: Seq<char>, c1: Seq<char>, max: nat)
    requires
        c0.len() + c1.len() + 2 <= max,
    ensures
        table_text(seq![seq![c0, c1]], max) == c0 + "  "@ + c1,
{
    let rows = seq![seq![c0, c1]];
    assert(rows.drop_last() =~= Seq::<Seq<Seq<char>>>::empty());
    let ws = widths_of(rows);
    assert(widths_of(rows.drop_last()) =~= Seq::<nat>::empty());
    assert(rows.last() == seq![c0, c1]);
    assert(ws == grow(Seq::<nat>::empty(), seq![c0, c1]));
    assert(ws =~= seq![c0.len(), c1.len()]);
    assert(pad_right(c0, c0.len()) == c0);
    assert(pad_right(c1, c1.len()) == c1);
    assert(row_texts(rows, max) =~= seq![c0 + "  "@ + c1]);
}

/// Every line of the wrapped text that starts with `cur` stays under `max`,
/// unless it is `cur` itself or a single word after the indentation.
proof fn lemma_wrap_lines_bounded(
    cur: Seq<char>,
    ws: Seq<Seq<char>>,
    indent: Seq<char>,
    max: nat,
    fresh: bool,
)
    ensures
        forall|k: int|
            0 <= k < wrap_lines(cur, ws, indent, max, fresh).len() ==> {
                let l = #[trigger] wrap_lines(cur, ws, indent, max, fresh)[k];
                l.len() < max || l == cur || exists|j: int| 0 <= j < ws.len() && l == indent + ws[j]
            },
    decreases ws.len(),
{
    reveal_strlit(" ");
    if ws.len() == 0 {
    } else if cur.len() + word_sep(fresh).len() + ws[0].len() < max {
        let next = cur + word_sep(fresh) + ws[0];
        lemma_wrap_lines_bounded(next, ws.skip(1), indent, max, false);
        let ls = wrap_lines(next, ws.skip(1), indent, max, false);
        assert forall|k: int| 0 <= k < ls.len() implies {
            let l = #[trigger] ls[k];
            l.len() < max || l == cur || exists|j: int| 0 <= j < ws.len() && l == indent + ws[j]
        } by {
            let l = ls[k];
            if l == next {
                assert(l.len() < max);
            } else if l.len() >= max {
                let j = choose|j: int| 0 <= j < ws.skip(1).len() && l == indent + ws.skip(1)[j];
                assert(l == indent + ws[j + 1]);
            }
        }
    } else {
        let next = indent + ws[0];
        lemma_wrap_lines_bounded(next, ws.skip(1), indent, max, false);
        let ls = wrap_lines(next, ws.skip(1), indent, max, false);
        let all = seq![cur] + ls;
        assert forall|k: int| 0 <= k < all.len() implies {
            let l = #[trigger] all[k];
            l.len() < max || l == cur || exists|j: int| 0 <= j < ws.len() && l == indent + ws[j]
        } by {
            if k > 0 {
                let l = ls[k - 1];
                assert(all[k] == l);
                if l.len() >= max && l != next {
                    let j = choose|j: int| 0 <= j < ws.skip(1).len() && l == indent + ws.skip(1)[j];
                    assert(l == indent + ws[j + 1]);
                } else if l == next {
                    assert(l == indent + ws[0]);
                }
            }
        }
    }
}

/// A two-cell row too wide for the output is word-wrapped, and none of its
/// lines is longer than the width allows, but for the first column where it
/// alone is that wide, and for a line that holds a single over-long word of
/// the second cell after the indentation, which is written out whole.
pub proof fn lemma_wrapped_row_within_width(c0: Seq<char>, c1: Seq<char>, w0: nat, w1: nat, max: nat)
    requires
        w0 + w1 + 2 > max,
    ensures
        row_text(c0, c1, w0, w1, max) == join(wrapped_row_lines(c0, c1, w0, max), "\n"@),
        forall|k: int|
            0 <= k < wrapped_row_lines(c0, c1, w0, max).len() ==> {
                let l = #[trigger] wrapped_row_lines(c0, c1, w0, max)[k];
                l.len() < max || l == first_column(c0, w0) || exists|j: int|
                    0 <= j < words(c1).len() && l == wrap_indent(w0) + words(c1)[j]
            },
{
    lemma_wrap_lines_bounded(first_column(c0, w0), words(c1), wrap_indent(w0), max, true);
}

/// In a table of two-cell rows whose columns together are too wide for the
/// output, the table's text is its rows' texts one per line, each row is
/// word-wrapped, and no line of any row is longer than the width allows, but
/// for a first column that alone is that wide and for a line holding a single
/// over-long word of a second cell after the indentation.
pub proof fn lemma_table_within_width(rows: Seq<Seq<Seq<char>>>, max: nat)
    requires
        rows.len() > 0,
        all_two_cells(rows),
        widths_of(rows)[0] + widths_of(rows)[1] + 2 > max,
    ensures
        table_text(rows, max) == join(row_texts(rows, max), "\n"@),
        forall|r: int|
            0 <= r < rows.len() ==> (#[trigger] row_texts(rows, max)[r]) == join(
                wrapped_row_lines(rows[r][0], rows[r][1], widths_of(rows)[0], max),
                "\n"@,
            ),
        forall|r: int, k: int|
            0 <= r < rows.len() && 0 <= k < wrapped_row_lines(
                rows[r][0],
                rows[r][1],
                widths_of(rows)[0],
                max,
            ).len() ==> {
                let l = #[trigger] wrapped_row_lines(rows[r][0], rows[r][1], widths_of(rows)[0], max)[k];
                l.len() < max || l == first_column(rows[r][0], widths_of(rows)[0]) || exists|j: int|
                    0 <= j < words(rows[r][1]).len() && l == wrap_indent(widths_of(rows)[0]) + words(
                        rows[r][1],
                    )[j]
            },
{
    let ws = widths_of(rows);
    assert forall|r: int, k: int|
        0 <= r < rows.len() && 0 <= k < wrapped_row_lines(rows[r][0], rows[r][1], ws[0], max).len()
        implies {
            let l = #[trigger] wrapped_row_lines(rows[r][0], rows[r][1], ws[0], max)[k];
            l.len() < max || l == first_column(rows[r][0], ws[0]) || exists|j: int|
                0 <= j < words(rows[r][1]).len() && l == wrap_indent(ws[0]) + words(rows[r][1])[j]
        } by {
        lemma_wrapped_row_within_width(rows[r][0], rows[r][1], ws[0], ws[1], max);
    }
}

} // verus!
