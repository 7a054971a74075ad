//! Aligned text tables.
//!
//! A character count is the display width: the registry's text holds no
//! double-width characters.

use vstd::prelude::*;
use crate::text::{is_space, lemma_trim_end_prefix, push_spaces, repeat_char, trim_end, trimmed_end};

verus! {

/// The text of a row of cells.
pub open spec fn cells_text(row: Seq<String>) -> Seq<Seq<char>> {
    row.map_values(|c: String| c@)
}

/// The width of column `i`: its widest cell, the header included.
pub open spec fn column_width(headers: Seq<Seq<char>>, rows: Seq<Seq<Seq<char>>>, i: int) -> int
    decreases rows.len(),
{
    if rows.len() == 0 {
        headers[i].len() as int
    } else {
        let rest = column_width(headers, rows.drop_last(), i);
        let here = rows.last()[i].len() as int;
        if here > rest {
            here
        } else {
            rest
        }
    }
}

/// The first `k` cells of a line: two spaces between cells, every cell but the
/// last padded to its column's width.
pub open spec fn padded_cells(cells: Seq<Seq<char>>, widths: Seq<int>, k: int) -> Seq<char>
    decreases k,
{
    if k <= 0 {
        Seq::empty()
    } else {
        let before = padded_cells(cells, widths, k - 1);
        let sep = if k - 1 > 0 { seq![' ', ' '] } else { Seq::<char>::empty() };
        let cell = cells[k - 1];
        let pad = if k < cells.len() {
            Seq::new((widths[k - 1] - cell.len()) as nat, |_i: int| ' ')
        } else {
            Seq::<char>::empty()
        };
        before + sep + cell + pad
    }
}

/// One line of a table, with no trailing whitespace.
pub open spec fn table_line(cells: Seq<Seq<char>>, widths: Seq<int>) -> Seq<char> {
    trim_end(padded_cells(cells, widths, cells.len() as int))
}

/// What a table prints: its headers, a rule of dashes as wide as each column,
/// then each row.
pub open spec fn table_text(headers: Seq<Seq<char>>, rows: Seq<Seq<Seq<char>>>) -> Seq<Seq<char>> {
    let widths = Seq::new(headers.len(), |i: int| column_width(headers, rows, i));
    let rule = Seq::new(headers.len(), |i: int| Seq::new(widths[i] as nat, |_j: int| '-'));
    seq![table_line(headers, widths), table_line(rule, widths)] + Seq::new(
        rows.len(),
        |r: int| table_line(rows[r], widths),
    )
}

/// A table with right-sized columns.
pub struct Table {
    headers: Vec<String>,
    rows: Vec<Vec<String>>,
}

impl Table {
    #[verifier::type_invariant]
    spec fn rows_match_headers(self) -> bool {
        forall|r: int| 0 <= r < self.rows@.len() ==> #[trigger] self.rows@[r]@.len() == self.headers@.len()
    }

    /// The header cells.
    pub closed spec fn header_text(&self) -> Seq<Seq<char>> {
        cells_text(self.headers@)
    }

    /// The rows, cell by cell.
    pub closed spec fn row_text(&self) -> Seq<Seq<Seq<char>>> {
        self.rows@.map_values(|r: Vec<String>| cells_text(r@))
    }

    /// A table with these headers and no rows.
    pub fn new(headers: &[&str]) -> (t: Table)
        ensures
            t.header_text() == headers@.map_values(|h: &str| h@),
            t.row_text().len() == 0,
    {
        let mut hs: Vec<String> = Vec::new();
        let mut i: usize = 0;
        while i < headers.len()
            invariant
                i <= headers@.len(),
                hs@.len() == i,
                cells_text(hs@) == headers@.take(i as int).map_values(|h: &str| h@),
            decreases headers@.len() - i,
        {
            let ghost prev = hs@;
            let h = String::from_str(headers[i]);
            hs.push(h);
            assert(headers@.take(i + 1) =~= headers@.take(i as int).push(headers@[i as int]));
            assert(cells_text(hs@) =~= cells_text(prev).push(h@));
            i = i + 1;
            assert(cells_text(hs@) =~= headers@.take(i as int).map_values(|h: &str| h@));
        }
        assert(headers@.take(headers@.len() as int) =~= headers@);
        let t = Table { headers: hs, rows: Vec::new() };
        assert(t.row_text() =~= Seq::empty());
        t
    }

    /// Add a row; it has one cell per header.
    pub fn push(&mut self, row: Vec<String>)
        requires
            row@.len() == old(self).header_text().len(),
        ensures
            final(self).header_text() == old(self).header_text(),
            final(self).row_text() == old(self).row_text().push(cells_text(row@)),
    {
        proof {
            use_type_invariant(&*self);
        }
        let ghost before = self.rows@;
        let mut rows: Vec<Vec<String>> = Vec::new();
        std::mem::swap(&mut rows, &mut self.rows);
        rows.push(row);
        self.rows = rows;
        assert(self.rows@.map_values(|r: Vec<String>| cells_text(r@)) =~= before.map_values(
            |r: Vec<String>| cells_text(r@),
        ).push(cells_text(row@)));
    }

    /// Whether the table has no rows.
    pub fn is_empty(&self) -> (r: bool)
        ensures
            r == (self.row_text().len() == 0),
    {
        self.rows.len() == 0
    }

    /// The lines the table prints.
    pub fn lines(&self) -> (out: Vec<String>)
        ensures
            out@.map_values(|s: String| s@) == table_text(self.header_text(), self.row_text()),
    {
        proof {
            use_type_invariant(self);
        }
        let n = self.headers.len();
        let ghost hv = self.header_text();
        let ghost rv = self.row_text();
        let mut widths: Vec<usize> = Vec::new();
        let mut i: usize = 0;
        while i < n
            invariant
                n == self.headers@.len(),
                hv == self.header_text(),
                rv == self.row_text(),
                i <= n,
                widths@.len() == i,
                forall|c: int| 0 <= c < i ==> #[trigger] widths@[c] == column_width(hv, rv, c),
                forall|r: int| 0 <= r < self.rows@.len() ==> #[trigger] self.rows@[r]@.len() == n,
            decreases n - i,
        {
            let mut w = self.headers[i].as_str().unicode_len();
            let mut r: usize = 0;
            while r < self.rows.len()
                invariant
                    n == self.headers@.len(),
                    hv == self.header_text(),
                    rv == self.row_text(),
                    i < n,
                    r <= self.rows@.len(),
                    w == column_width(hv, rv.take(r as int), i as int),
                    forall|q: int| 0 <= q < self.rows@.len() ==> #[trigger] self.rows@[q]@.len() == n,
                decreases self.rows@.len() - r,
            {
                assert(rv.take(r + 1).drop_last() =~= rv.take(r as int));
                let cw = self.rows[r][i].as_str().unicode_len();
                if cw > w {
                    w = cw;
                }
                r = r + 1;
            }
            assert(rv.take(self.rows@.len() as int) =~= rv);
            widths.push(w);
            i = i + 1;
        }
        let ghost ws = Seq::new(hv.len(), |c: int| column_width(hv, rv, c));
        assert(widths@.map_values(|w: usize| w as int) =~= ws);
        proof {
            lemma_widths_cover(hv, rv);
        }
        let mut rule: Vec<String> = Vec::new();
        let mut c: usize = 0;
        while c < n
            invariant
                c <= n,
                n == widths@.len(),
                rule@.len() == c,
                forall|k: int| 0 <= k < c ==> #[trigger] rule@[k]@ == Seq::new(
                    widths@[k] as nat,
                    |_j: int| '-',
                ),
            decreases n - c,
        {
            rule.push(repeat_char('-', widths[c]));
            c = c + 1;
        }
        let ghost rule_text = Seq::new(hv.len(), |k: int| Seq::new(ws[k] as nat, |_j: int| '-'));
        assert(cells_text(rule@) =~= rule_text);
        assert forall|k: int| 0 <= k < self.headers@.len() implies #[trigger] self.headers@[k]@.len()
            <= widths@[k] by {
            assert(hv[k] == self.headers@[k]@);
            assert(widths@.map_values(|w: usize| w as int)[k] == ws[k]);
        }
        assert forall|k: int| 0 <= k < rule@.len() implies #[trigger] rule@[k]@.len() <= widths@[k] by {}
        let mut out: Vec<String> = Vec::new();
        out.push(render_line(&self.headers, &widths));
        out.push(render_line(&rule, &widths));
        let mut r: usize = 0;
        while r < self.rows.len()
            invariant
                n == widths@.len(),
                widths@.map_values(|w: usize| w as int) == ws,
                hv == self.header_text(),
                rv == self.row_text(),
                ws == Seq::new(hv.len(), |c: int| column_width(hv, rv, c)),
                forall|q: int| 0 <= q < self.rows@.len() ==> #[trigger] self.rows@[q]@.len() == n,
                forall|q: int, k: int|
                    0 <= q < rv.len() && 0 <= k < n ==> #[trigger] rv[q][k].len() <= ws[k],
                r <= self.rows@.len(),
                out@.len() == r + 2,
                out@.map_values(|s: String| s@) == table_text(hv, rv).take(r + 2),
            decreases self.rows@.len() - r,
        {
            assert(cells_text(self.rows@[r as int]@) == rv[r as int]);
            assert forall|k: int| 0 <= k < self.rows@[r as int]@.len() implies #[trigger] self.rows@[r as int]@[k]@.len()
                <= widths@[k] by {
                assert(rv[r as int][k] == self.rows@[r as int]@[k]@);
                assert(widths@.map_values(|w: usize| w as int)[k] == ws[k]);
            }
            let line = render_line(&self.rows[r], &widths);
            out.push(line);
            r = r + 1;
            assert(out@.map_values(|s: String| s@) =~= table_text(hv, rv).take(r + 2));
        }
        assert(table_text(hv, rv).take(self.rows@.len() as int + 2) =~= table_text(hv, rv));
        out
    }
}

/// Every cell fits its column.
proof fn lemma_widths_cover(headers: Seq<Seq<char>>, rows: Seq<Seq<Seq<char>>>)
    ensures
        forall|i: int| 0 <= i < headers.len() ==> #[trigger] headers[i].len() <= column_width(headers, rows, i),
        forall|q: int, i: int|
            0 <= q < rows.len() && 0 <= i < headers.len() ==> #[trigger] rows[q][i].len() <= column_width(
                headers,
                rows,
                i,
            ),
    decreases rows.len(),
{
    if rows.len() > 0 {
        lemma_widths_cover(headers, rows.drop_last());
        assert forall|q: int, i: int|
            0 <= q < rows.len() && 0 <= i < headers.len() implies #[trigger] rows[q][i].len() <= column_width(
            headers,
            rows,
            i,
        ) by {
            if q < rows.len() - 1 {
                assert(rows.drop_last()[q] == rows[q]);
            }
        }
    }
}

/// One printed line of cells padded to `widths`.
fn render_line(cells: &Vec<String>, widths: &Vec<usize>) -> (line: String)
    requires
        cells@.len() == widths@.len(),
        forall|k: int| 0 <= k < cells@.len() ==> #[trigger] cells@[k]@.len() <= widths@[k],
    ensures
        line@ == table_line(cells_text(cells@), widths@.map_values(|w: usize| w as int)),
{
    let ghost cv = cells_text(cells@);
    let ghost wv = widths@.map_values(|w: usize| w as int);
    let mut out = String::new();
    let mut k: usize = 0;
    while k < cells.len()
        invariant
            cv == cells_text(cells@),
            wv == widths@.map_values(|w: usize| w as int),
            cells@.len() == widths@.len(),
            forall|j: int| 0 <= j < cells@.len() ==> #[trigger] cells@[j]@.len() <= widths@[j],
            k <= cells@.len(),
            out@ == padded_cells(cv, wv, k as int),
        decreases cells@.len() - k,
    {
        if k > 0 {
            out.append("  ");
        }
        let cell = cells[k].as_str();
        out.append(cell);
        if k + 1 < cells.len() {
            let len = cell.unicode_len();
            push_spaces(&mut out, widths[k] - len);
        }
        k = k + 1;
        proof {
            reveal_strlit("  ");
        }
        assert(out@ =~= padded_cells(cv, wv, k as int));
    }
    trimmed_end(out.as_str())
}


/// No line of a table ends in whitespace: the last column is never padded, and
/// each line is trimmed.
pub proof fn table_lines_have_no_trailing_space(headers: Seq<Seq<char>>, rows: Seq<Seq<Seq<char>>>)
    ensures
        forall|i: int|
            0 <= i < table_text(headers, rows).len() ==> (#[trigger] table_text(headers, rows)[i]).len() == 0
                || !is_space(table_text(headers, rows)[i].last()),
{
    let widths = Seq::new(headers.len(), |i: int| column_width(headers, rows, i));
    let rule = Seq::new(headers.len(), |i: int| Seq::new(widths[i] as nat, |_j: int| '-'));
    let t = table_text(headers, rows);
    assert forall|i: int| 0 <= i < t.len() implies (#[trigger] t[i]).len() == 0 || !is_space(t[i].last()) by {
        let cells = if i == 0 {
            headers
        } else if i == 1 {
            rule
        } else {
            rows[i - 2]
        };
        assert(t[i] == table_line(cells, widths));
        lemma_trim_end_prefix(padded_cells(cells, widths, cells.len() as int));
    }
}

} // verus!
