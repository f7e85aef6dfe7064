//! Text tables: columns padded to a width and separated by two spaces, as
//! `format!("{:<w1$}  {:<w2$}  ...")` writes them.
use vstd::prelude::*;

use crate::num::{pad_right, pad_right_chars, str_len};
use crate::split::{join, join_chars};
use crate::text::{append, chars_of, string_of, views};

verus! {

/// The cells padded to their widths with `fill`.
pub open spec fn padded_cells(cells: Seq<Seq<char>>, widths: Seq<usize>, fill: char) -> Seq<
    Seq<char>,
> {
    Seq::new(cells.len(), |i: int| pad_right(cells[i], widths[i] as nat, fill))
}

/// One row of a table: the padded cells separated by two spaces.
pub open spec fn table_row(cells: Seq<Seq<char>>, widths: Seq<usize>, fill: char) -> Seq<char> {
    join(padded_cells(cells, widths, fill), "  "@)
}

/// The largest `str::len` among `values`, 0 when there is none.
pub open spec fn max_str_len(values: Seq<Seq<char>>) -> usize
    decreases values.len(),
{
    if values.len() == 0 {
        0
    } else {
        let m = max_str_len(values.drop_last());
        let l = str_len(values.last());
        if m >= l {
            m
        } else {
            l
        }
    }
}

/// The width of a column: the longest value (`default` when there is no
/// value), and at least as wide as the header, lengths counted in bytes.
pub open spec fn column_width(values: Seq<Seq<char>>, default: usize, header: Seq<char>) -> usize {
    let m = if values.len() == 0 {
        default
    } else {
        max_str_len(values)
    };
    if m >= str_len(header) {
        m
    } else {
        str_len(header)
    }
}

/// `str::len` of the string with the characters of `v`.
pub fn str_len_of(v: &Vec<char>) -> (r: usize)
    ensures
        r == str_len(v@),
{
    let s = string_of(v);
    s.as_str().len()
}

/// The width of a column (see [`column_width`]).
pub fn column_width_of(values: &Vec<Vec<char>>, default: usize, header: &str) -> (r: usize)
    ensures
        r == column_width(views(values@), default, header@),
{
    let ghost vs = views(values@);
    let mut m: usize = 0;
    let n = values.len();
    for i in 0..n
        invariant
            n == values@.len(),
            vs == views(values@),
            m == max_str_len(vs.take(i as int)),
    {
        assert(vs.take(i + 1).drop_last() =~= vs.take(i as int));
        assert(vs.take(i + 1).last() == values@[i as int]@);
        let l = str_len_of(&values[i]);
        if l > m {
            m = l;
        }
    }
    assert(vs.take(n as int) =~= vs);
    let base = if n == 0 {
        default
    } else {
        m
    };
    let h = header.len();
    proof {
        vstd::string::axiom_str_literal_len(header);
    }
    assert(h == str_len(header@));
    if base >= h {
        base
    } else {
        h
    }
}

/// One row of a table (see [`table_row`]).
pub fn format_row(cells: &Vec<Vec<char>>, widths: &Vec<usize>, fill: char) -> (r: Vec<char>)
    requires
        cells@.len() == widths@.len(),
    ensures
        r@ == table_row(views(cells@), widths@, fill),
{
    let mut padded: Vec<Vec<char>> = Vec::new();
    let n = cells.len();
    for i in 0..n
        invariant
            n == cells@.len() == widths@.len(),
            views(padded@) =~= padded_cells(views(cells@.take(i as int)), widths@, fill),
    {
        let p = pad_right_chars(&cells[i], widths[i], fill);
        let ghost before = views(padded@);
        let ghost pv = p@;
        padded.push(p);
        assert(views(padded@) =~= before.push(pv));
        assert(views(cells@.take(i + 1)) =~= views(cells@.take(i as int)).push(cells@[i as int]@));
        assert(padded_cells(views(cells@.take(i + 1)), widths@, fill) =~= padded_cells(
            views(cells@.take(i as int)),
            widths@,
            fill,
        ).push(pv));
    }
    assert(cells@.take(n as int) =~= cells@);
    let sep = chars_of("  ");
    join_chars(&padded, &sep)
}

/// Column `k` of the rows.
pub open spec fn column(rows: Seq<Seq<Seq<char>>>, k: int) -> Seq<Seq<char>> {
    rows.map_values(|r: Seq<Seq<char>>| r[k])
}

/// The widths of the columns (see [`column_width`]).
pub open spec fn table_widths(
    headers: Seq<Seq<char>>,
    defaults: Seq<usize>,
    rows: Seq<Seq<Seq<char>>>,
) -> Seq<usize> {
    Seq::new(headers.len(), |k: int| column_width(column(rows, k), defaults[k], headers[k]))
}

/// A table: a header, a line of dashes, then one line per row, or the note
/// when there is no row; lines separated by `\n`.
pub open spec fn render_table(
    headers: Seq<Seq<char>>,
    defaults: Seq<usize>,
    rows: Seq<Seq<Seq<char>>>,
    empty_note: Seq<char>,
) -> Seq<char> {
    let w = table_widths(headers, defaults, rows);
    let header = table_row(headers, w, ' ');
    let dashes = table_row(Seq::new(headers.len(), |k: int| Seq::<char>::empty()), w, '-');
    let body = if rows.len() == 0 {
        seq![empty_note]
    } else {
        rows.map_values(|r: Seq<Seq<char>>| table_row(r, w, ' '))
    };
    join(seq![header, dashes] + body, "\n"@)
}

/// The cells of each row.
pub open spec fn rows_view(rows: Seq<Vec<Vec<char>>>) -> Seq<Seq<Seq<char>>> {
    rows.map_values(|r: Vec<Vec<char>>| views(r@))
}

fn column_of(rows: &Vec<Vec<Vec<char>>>, k: usize) -> (r: Vec<Vec<char>>)
    requires
        forall|i: int| 0 <= i < rows@.len() ==> k < (#[trigger] rows@[i])@.len(),
    ensures
        views(r@) == column(rows_view(rows@), k as int),
{
    let mut out: Vec<Vec<char>> = Vec::new();
    let n = rows.len();
    for i in 0..n
        invariant
            n == rows@.len(),
            forall|i: int| 0 <= i < rows@.len() ==> k < (#[trigger] rows@[i])@.len(),
            views(out@) =~= column(rows_view(rows@.take(i as int)), k as int),
    {
        let c = rows[i][k].clone();
        let ghost before = views(out@);
        let ghost cv = c@;
        out.push(c);
        assert(views(out@) =~= before.push(cv));
        assert(rows@.take(i + 1) =~= rows@.take(i as int).push(rows@[i as int]));
    }
    assert(rows@.take(n as int) =~= rows@);
    out
}

/// The width of a column whose header is given as characters.
fn column_width_chars(values: &Vec<Vec<char>>, default: usize, header: &Vec<char>) -> (r: usize)
    ensures
        r == column_width(views(values@), default, header@),
{
    let ghost vs = views(values@);
    let mut m: usize = 0;
    let n = values.len();
    for i in 0..n
        invariant
            n == values@.len(),
            vs == views(values@),
            m == max_str_len(vs.take(i as int)),
    {
        assert(vs.take(i + 1).drop_last() =~= vs.take(i as int));
        assert(vs.take(i + 1).last() == values@[i as int]@);
        let l = str_len_of(&values[i]);
        if l > m {
            m = l;
        }
    }
    assert(vs.take(n as int) =~= vs);
    let base = if n == 0 {
        default
    } else {
        m
    };
    let h = str_len_of(header);
    if base >= h {
        base
    } else {
        h
    }
}

/// A table (see [`render_table`]).
pub fn render_table_chars(
    headers: &Vec<Vec<char>>,
    defaults: &Vec<usize>,
    rows: &Vec<Vec<Vec<char>>>,
    empty_note: &Vec<char>,
) -> (r: Vec<char>)
    requires
        headers@.len() == defaults@.len(),
        forall|i: int| 0 <= i < rows@.len() ==> (#[trigger] rows@[i])@.len() == headers@.len(),
    ensures
        r@ == render_table(views(headers@), defaults@, rows_view(rows@), empty_note@),
{
    let ghost hv = views(headers@);
    let ghost rv = rows_view(rows@);
    let nc = headers.len();
    let mut w: Vec<usize> = Vec::new();
    let mut dash_cells: Vec<Vec<char>> = Vec::new();
    for k in 0..nc
        invariant
            nc == headers@.len() == defaults@.len(),
            hv == views(headers@),
            rv == rows_view(rows@),
            forall|i: int| 0 <= i < rows@.len() ==> (#[trigger] rows@[i])@.len() == headers@.len(),
            w@ =~= table_widths(hv, defaults@, rv).take(k as int),
            views(dash_cells@) =~= Seq::new(k as nat, |j: int| Seq::<char>::empty()),
    {
        let col = column_of(rows, k);
        let x = column_width_chars(&col, defaults[k], &headers[k]);
        w.push(x);
        let ghost before = views(dash_cells@);
        dash_cells.push(Vec::new());
        assert(views(dash_cells@) =~= before.push(Seq::<char>::empty()));
    }
    assert(w@ =~= table_widths(hv, defaults@, rv));
    let ghost wv = w@;
    let mut lines: Vec<Vec<char>> = Vec::new();
    let hr = format_row(headers, &w, ' ');
    let dr = format_row(&dash_cells, &w, '-');
    let ghost h1 = hr@;
    let ghost h2 = dr@;
    lines.push(hr);
    lines.push(dr);
    let ghost head = views(lines@);
    assert(head =~= seq![h1, h2]);
    let n = rows.len();
    if n == 0 {
        let note = empty_note.clone();
        let ghost nv = note@;
        lines.push(note);
        assert(views(lines@) =~= head + seq![nv]);
    } else {
        for i in 0..n
            invariant
                n == rows@.len(),
                nc == headers@.len(),
                rv == rows_view(rows@),
                w@ == wv,
                wv.len() == nc,
                forall|i: int| 0 <= i < rows@.len() ==> (#[trigger] rows@[i])@.len() == headers@.len(),
                views(lines@) =~= head + rv.take(i as int).map_values(
                    |r: Seq<Seq<char>>| table_row(r, wv, ' '),
                ),
        {
            assert(rows@[i as int]@.len() == nc);
            let row = format_row(&rows[i], &w, ' ');
            let ghost before = views(lines@);
            let ghost rowv = row@;
            lines.push(row);
            assert(views(lines@) =~= before.push(rowv));
            assert(rv.take(i + 1) =~= rv.take(i as int).push(rv[i as int]));
        }
        assert(rv.take(n as int) =~= rv);
    }
    let nl = chars_of("\n");
    join_chars(&lines, &nl)
}

} // verus!
