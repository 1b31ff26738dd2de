//! Rendering rows as an aligned plain-text table.
//!
//! The table has a header row, a dash separator line under the header and
//! nothing else around it. Every column is as wide as its widest cell
//! (header included), cells are left-aligned and padded with spaces, columns
//! are separated by two spaces, and the last column is not padded.

use vstd::prelude::*;
use vstd::string::StrSliceExecFns;
use vstd::string::StringExecFns;

verus! {

/// `n` space characters.
pub open spec fn spaces(n: nat) -> Seq<char>
    decreases n,
{
    if n == 0 {
        Seq::<char>::empty()
    } else {
        spaces((n - 1) as nat).push(' ')
    }
}

/// `n` dash characters.
pub open spec fn dashes(n: nat) -> Seq<char>
    decreases n,
{
    if n == 0 {
        Seq::<char>::empty()
    } else {
        dashes((n - 1) as nat).push('-')
    }
}

pub open spec fn nat_max(a: nat, b: nat) -> nat {
    if a >= b {
        a
    } else {
        b
    }
}

/// The width of column `c`: the length of its widest cell, header included.
pub open spec fn col_width(header: Seq<Seq<char>>, rows: Seq<Seq<Seq<char>>>, c: int) -> nat
    decreases rows.len(),
{
    if rows.len() == 0 {
        header[c].len()
    } else {
        nat_max(col_width(header, rows.drop_last(), c), rows.last()[c].len())
    }
}

/// The widths of all columns of a table, left to right.
pub open spec fn table_widths(header: Seq<Seq<char>>, rows: Seq<Seq<Seq<char>>>) -> Seq<nat> {
    Seq::new(header.len(), |c: int| col_width(header, rows, c))
}

/// `cell` left-aligned in a field of width `w`.
pub open spec fn padded(cell: Seq<char>, w: nat) -> Seq<char> {
    if cell.len() >= w {
        cell
    } else {
        cell + spaces((w - cell.len()) as nat)
    }
}

/// The two spaces between columns.
pub open spec fn column_gap() -> Seq<char> {
    seq![' ', ' ']
}

pub open spec fn newline() -> Seq<char> {
    seq!['\n']
}

/// The cells of one line from column `c` on: every cell but the last padded
/// to its column width, with a gap between columns, the last cell as it is.
pub open spec fn rendered_cells(cells: Seq<Seq<char>>, widths: Seq<nat>, c: int) -> Seq<char>
    decreases cells.len() - c,
{
    if c < 0 || c >= cells.len() {
        Seq::<char>::empty()
    } else if c == cells.len() - 1 {
        cells[c]
    } else {
        padded(cells[c], widths[c]) + column_gap() + rendered_cells(cells, widths, c + 1)
    }
}

/// One full line of the table, newline included.
pub open spec fn rendered_line(cells: Seq<Seq<char>>, widths: Seq<nat>) -> Seq<char> {
    rendered_cells(cells, widths, 0) + newline()
}

/// The cells of the separator line: one run of dashes per column, as wide as
/// the column.
pub open spec fn dash_cells(widths: Seq<nat>) -> Seq<Seq<char>> {
    widths.map_values(|w: nat| dashes(w))
}

/// All data lines of the table, in order.
pub open spec fn rendered_rows(rows: Seq<Seq<Seq<char>>>, widths: Seq<nat>) -> Seq<char>
    decreases rows.len(),
{
    if rows.len() == 0 {
        Seq::<char>::empty()
    } else {
        rendered_rows(rows.drop_last(), widths) + rendered_line(rows.last(), widths)
    }
}

/// The whole table: header line, dash separator line, then one line per row.
pub open spec fn rendered_table(header: Seq<Seq<char>>, rows: Seq<Seq<Seq<char>>>) -> Seq<char> {
    let widths = table_widths(header, rows);
    rendered_line(header, widths) + rendered_line(dash_cells(widths), widths) + rendered_rows(
        rows,
        widths,
    )
}

/// The column widths of a width vector, as a sequence of naturals.
pub open spec fn widths_of(ws: Seq<usize>) -> Seq<nat> {
    ws.map_values(|w: usize| w as nat)
}

proof fn lemma_dashes_len(n: nat)
    ensures
        dashes(n).len() == n,
    decreases n,
{
    if n > 0 {
        lemma_dashes_len((n - 1) as nat);
    }
}

fn max_usize(a: usize, b: usize) -> (m: usize)
    ensures
        m as nat == nat_max(a as nat, b as nat),
{
    if a >= b {
        a
    } else {
        b
    }
}

#[verifier::loop_isolation(false)]
fn push_spaces(out: &mut String, n: usize)
    ensures
        final(out)@ == old(out)@ + spaces(n as nat),
{
    let ghost base = out@;
    let mut j: usize = 0;
    proof {
        reveal_strlit(" ");
    }
    while j < n
        invariant
            j <= n,
            out@ == base + spaces(j as nat),
        decreases n - j,
    {
        out.append(" ");
        proof {
            assert(spaces((j + 1) as nat) == spaces(j as nat).push(' '));
            assert(out@ =~= base + spaces((j + 1) as nat));
        }
        j = j + 1;
    }
}

#[verifier::loop_isolation(false)]
fn push_dashes(out: &mut String, n: usize)
    ensures
        final(out)@ == old(out)@ + dashes(n as nat),
{
    let ghost base = out@;
    let mut j: usize = 0;
    proof {
        reveal_strlit("-");
    }
    while j < n
        invariant
            j <= n,
            out@ == base + dashes(j as nat),
        decreases n - j,
    {
        out.append("-");
        proof {
            assert(dashes((j + 1) as nat) == dashes(j as nat).push('-'));
            assert(out@ =~= base + dashes((j + 1) as nat));
        }
        j = j + 1;
    }
}

fn push_cell_padded(out: &mut String, cell: &String, w: usize)
    ensures
        final(out)@ == old(out)@ + padded(cell@, w as nat),
{
    let ghost base = out@;
    out.append(cell.as_str());
    let len: usize = cell.as_str().unicode_len();
    if len < w {
        push_spaces(out, w - len);
    }
    proof {
        assert(out@ =~= base + padded(cell@, w as nat));
    }
}

#[verifier::loop_isolation(false)]
fn push_row(out: &mut String, cells: &Vec<String>, widths: &Vec<usize>)
    requires
        cells@.len() >= 1,
        widths@.len() >= cells@.len(),
    ensures
        final(out)@ == old(out)@ + rendered_line(cells.deep_view(), widths_of(widths@)),
{
    let ghost base = out@;
    let ghost dv = cells.deep_view();
    let ghost wn = widths_of(widths@);
    let n: usize = cells.len();
    let mut c: usize = 0;
    proof {
        reveal_strlit("  ");
        reveal_strlit("\n");
    }
    while c < n
        invariant
            c <= n,
            base + rendered_cells(dv, wn, 0) == out@ + rendered_cells(dv, wn, c as int),
        decreases n - c,
    {
        let ghost pre = out@;
        if c + 1 < n {
            push_cell_padded(out, &cells[c], widths[c]);
            out.append("  ");
            proof {
                assert("  "@ =~= column_gap());
                assert(out@ =~= pre + padded(dv[c as int], wn[c as int]) + column_gap());
                assert(out@ + rendered_cells(dv, wn, c as int + 1) =~= base + rendered_cells(
                    dv,
                    wn,
                    0,
                ));
            }
        } else {
            out.append(cells[c].as_str());
            proof {
                assert(rendered_cells(dv, wn, c as int) == dv[c as int]);
                assert(out@ + rendered_cells(dv, wn, c as int + 1) =~= base + rendered_cells(
                    dv,
                    wn,
                    0,
                ));
            }
        }
        c = c + 1;
    }
    out.append("\n");
    proof {
        assert("\n"@ =~= newline());
        assert(rendered_cells(dv, wn, n as int) =~= Seq::<char>::empty());
        assert(out@ =~= base + rendered_line(dv, wn));
    }
}

#[verifier::loop_isolation(false)]
fn push_dash_row(out: &mut String, widths: &Vec<usize>)
    requires
        widths@.len() >= 1,
    ensures
        final(out)@ == old(out)@ + rendered_line(
            dash_cells(widths_of(widths@)),
            widths_of(widths@),
        ),
{
    let ghost base = out@;
    let ghost wn = widths_of(widths@);
    let ghost dv = dash_cells(wn);
    let n: usize = widths.len();
    let mut c: usize = 0;
    proof {
        reveal_strlit("  ");
        reveal_strlit("\n");
    }
    while c < n
        invariant
            c <= n,
            base + rendered_cells(dv, wn, 0) == out@ + rendered_cells(dv, wn, c as int),
        decreases n - c,
    {
        let ghost pre = out@;
        push_dashes(out, widths[c]);
        proof {
            lemma_dashes_len(wn[c as int]);
            assert(padded(dv[c as int], wn[c as int]) == dv[c as int]);
        }
        if c + 1 < n {
            out.append("  ");
            proof {
                assert("  "@ =~= column_gap());
                assert(out@ =~= pre + padded(dv[c as int], wn[c as int]) + column_gap());
                assert(out@ + rendered_cells(dv, wn, c as int + 1) =~= base + rendered_cells(
                    dv,
                    wn,
                    0,
                ));
            }
        } else {
            proof {
                assert(rendered_cells(dv, wn, c as int) == dv[c as int]);
                assert(out@ + rendered_cells(dv, wn, c as int + 1) =~= base + rendered_cells(
                    dv,
                    wn,
                    0,
                ));
            }
        }
        c = c + 1;
    }
    out.append("\n");
    proof {
        assert("\n"@ =~= newline());
        assert(rendered_cells(dv, wn, n as int) =~= Seq::<char>::empty());
        assert(out@ =~= base + rendered_line(dv, wn));
    }
}

/// Renders the table for the given header and rows, every row as wide as the
/// header.
#[verifier::loop_isolation(false)]
pub fn render_table(header: &Vec<String>, rows: &Vec<Vec<String>>) -> (out: String)
    requires
        header@.len() >= 1,
        forall|r: int| 0 <= r < rows@.len() ==> (#[trigger] rows@[r])@.len() == header@.len(),
    ensures
        out@ == rendered_table(header.deep_view(), rows.deep_view()),
{
    let ghost hd = header.deep_view();
    let ghost rd = rows.deep_view();
    let mut widths: Vec<usize> = Vec::new();
    let mut c: usize = 0;
    while c < header.len()
        invariant
            c <= header@.len(),
            widths@.len() == c,
            forall|j: int| 0 <= j < c ==> (#[trigger] widths@[j]) as nat == col_width(hd, rd, j),
        decreases header@.len() - c,
    {
        let mut w: usize = header[c].as_str().unicode_len();
        let mut r: usize = 0;
        while r < rows.len()
            invariant
                r <= rows@.len(),
                c < header@.len(),
                w as nat == col_width(hd, rd.subrange(0, r as int), c as int),
            decreases rows@.len() - r,
        {
            let rl: usize = rows[r][c].as_str().unicode_len();
            proof {
                assert(rd.subrange(0, r as int + 1).drop_last() =~= rd.subrange(0, r as int));
                assert(rd.subrange(0, r as int + 1).last() == rd[r as int]);
            }
            w = max_usize(w, rl);
            r = r + 1;
        }
        proof {
            assert(rd.subrange(0, rd.len() as int) =~= rd);
        }
        widths.push(w);
        c = c + 1;
    }
    let ghost wn = widths_of(widths@);
    proof {
        assert(wn =~= table_widths(hd, rd));
    }
    let mut out: String = String::new();
    push_row(&mut out, header, &widths);
    push_dash_row(&mut out, &widths);
    let mut r: usize = 0;
    while r < rows.len()
        invariant
            r <= rows@.len(),
            widths@.len() == header@.len(),
            out@ == rendered_line(hd, wn) + rendered_line(dash_cells(wn), wn) + rendered_rows(
                rd.subrange(0, r as int),
                wn,
            ),
        decreases rows@.len() - r,
    {
        push_row(&mut out, &rows[r], &widths);
        proof {
            assert(rd.subrange(0, r as int + 1).drop_last() =~= rd.subrange(0, r as int));
            assert(rd.subrange(0, r as int + 1).last() == rd[r as int]);
            assert(out@ =~= rendered_line(hd, wn) + rendered_line(dash_cells(wn), wn)
                + rendered_rows(rd.subrange(0, r as int + 1), wn));
        }
        r = r + 1;
    }
    proof {
        assert(rd.subrange(0, rd.len() as int) =~= rd);
        assert(out@ =~= rendered_table(hd, rd));
    }
    out
}

} // verus!
