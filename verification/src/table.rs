//! The grid of display strings: transposition and markdown rendering.

use vstd::prelude::*;
use vstd::string::*;
use crate::text::{join, joined, views};

verus! {

/// A grid as its rows of cell texts.
pub open spec fn grid_view(table: Seq<Vec<String>>) -> Seq<Seq<Seq<char>>> {
    Seq::new(table.len(), |r: int| views(table[r]@))
}

/// Every row is exactly as long as the first.
pub open spec fn rectangular(grid: Seq<Seq<Seq<char>>>) -> bool {
    forall|r: int| 0 <= r < grid.len() ==> (#[trigger] grid[r]).len() == grid[0].len()
}

/// The grid with rows and columns swapped. The first row gives the number
/// of columns; a cell that a shorter row lacks is the empty text.
pub open spec fn rotated(grid: Seq<Seq<Seq<char>>>) -> Seq<Seq<Seq<char>>> {
    if grid.len() == 0 {
        Seq::empty()
    } else {
        Seq::new(
            grid[0].len(),
            |c: int|
                Seq::new(
                    grid.len(),
                    |r: int|
                        if c < grid[r].len() {
                            grid[r][c]
                        } else {
                            Seq::empty()
                        },
                ),
        )
    }
}

/// Swaps the rows and columns of a table. No row may be longer than the
/// first one.
pub fn rotate_table(table: &[Vec<String>]) -> (out: Vec<Vec<String>>)
    requires
        forall|r: int| 0 <= r < table@.len() ==> (#[trigger] table@[r]).len() <= table@[0].len(),
    ensures
        grid_view(out@) == rotated(grid_view(table@)),
{
    let rows = table.len();
    let mut out: Vec<Vec<String>> = Vec::new();
    if rows == 0 {
        assert(grid_view(out@) =~= rotated(grid_view(table@)));
        return out;
    }
    let cols = table[0].len();
    let ghost want = rotated(grid_view(table@));
    let mut c: usize = 0;
    while c < cols
        invariant
            rows == table@.len(),
            rows > 0,
            cols == table@[0].len(),
            want == rotated(grid_view(table@)),
            c <= cols,
            out@.len() == c,
            forall|k: int| 0 <= k < c ==> views((#[trigger] out@[k])@) == want[k],
        decreases cols - c,
    {
        let mut line: Vec<String> = Vec::new();
        let mut r: usize = 0;
        while r < rows
            invariant
                rows == table@.len(),
                rows > 0,
                cols == table@[0].len(),
                want == rotated(grid_view(table@)),
                c < cols,
                r <= rows,
                line@.len() == r,
                forall|k: int| 0 <= k < r ==> (#[trigger] line@[k])@ == want[c as int][k],
            decreases rows - r,
        {
            let cell = if c < table[r].len() {
                table[r][c].clone()
            } else {
                String::new()
            };
            line.push(cell);
            r += 1;
        }
        assert(views(line@) =~= want[c as int]);
        out.push(line);
        c += 1;
    }
    assert(grid_view(out@) =~= want);
    out
}

/// Swapping rows and columns turns an R-by-C grid into a C-by-R grid, and
/// swapping again gives the first grid back. A grid that has rows but no
/// columns is left out: its swap has no rows at all.
pub proof fn lemma_rotate_twice(grid: Seq<Seq<Seq<char>>>)
    requires
        rectangular(grid),
        grid.len() > 0 ==> grid[0].len() > 0,
    ensures
        grid.len() > 0 ==> rotated(grid).len() == grid[0].len(),
        forall|c: int| 0 <= c < rotated(grid).len() ==> (#[trigger] rotated(grid)[c]).len() == grid.len(),
        rectangular(rotated(grid)),
        rotated(rotated(grid)) == grid,
{
    let once = rotated(grid);
    if grid.len() > 0 {
        assert(once[0].len() == grid.len());
        let twice = rotated(once);
        assert(twice.len() == grid.len());
        assert forall|r: int| 0 <= r < grid.len() implies #[trigger] twice[r] == grid[r] by {
            assert(grid[r].len() == grid[0].len());
            assert(twice[r] =~= grid[r]);
        }
        assert(twice =~= grid);
    } else {
        assert(rotated(once) =~= grid);
    }
}

/// One markdown line: the cells between `|`, with a `|` at each end.
pub open spec fn markdown_line(row: Seq<Seq<char>>) -> Seq<char> {
    seq!['|'] + joined(row, seq!['|']) + seq!['|']
}

/// The separator that follows the header: one `-` for each column.
pub open spec fn separator_line(columns: nat) -> Seq<char> {
    markdown_line(Seq::new(columns, |i: int| seq!['-']))
}

/// The markdown lines of a grid: the first row, the separator, the other
/// rows. A grid without rows has no lines.
pub open spec fn rendered(grid: Seq<Seq<Seq<char>>>) -> Seq<Seq<char>> {
    if grid.len() == 0 {
        Seq::empty()
    } else {
        Seq::new(
            grid.len() + 1,
            |i: int|
                if i == 0 {
                    markdown_line(grid[0])
                } else if i == 1 {
                    separator_line(grid[0].len())
                } else {
                    markdown_line(grid[i - 1])
                },
        )
    }
}

fn bar_line(row: &Vec<String>) -> (out: String)
    ensures
        out@ == markdown_line(views(row@)),
{
    proof {
        reveal_strlit("|");
    }
    let mut out = String::from_str("|");
    let body = join(row, "|");
    out.append(body.as_str());
    out.append("|");
    assert("|"@ =~= seq!['|']);
    out
}

/// Renders a table as markdown, one string for each line.
pub fn print_markdown(table: &[Vec<String>]) -> (lines: Vec<String>)
    ensures
        views(lines@) == rendered(grid_view(table@)),
        table@.len() == 0 ==> lines@.len() == 0,
{
    let mut lines: Vec<String> = Vec::new();
    if table.len() == 0 {
        assert(views(lines@) =~= rendered(grid_view(table@)));
        return lines;
    }
    let ghost want = rendered(grid_view(table@));
    lines.push(bar_line(&table[0]));
    let mut dashes: Vec<String> = Vec::new();
    let mut k: usize = 0;
    while k < table[0].len()
        invariant
            table@.len() > 0,
            k <= table@[0].len(),
            dashes@.len() == k,
            forall|j: int| 0 <= j < k ==> (#[trigger] dashes@[j])@ == seq!['-'],
        decreases table@[0].len() - k,
    {
        proof {
            reveal_strlit("-");
        }
        let dash = String::from_str("-");
        assert(dash@ =~= seq!['-']);
        dashes.push(dash);
        k += 1;
    }
    assert(views(dashes@) =~= Seq::new(table@[0]@.len(), |i: int| seq!['-']));
    lines.push(bar_line(&dashes));
    let mut r: usize = 1;
    while r < table.len()
        invariant
            table@.len() > 0,
            1 <= r <= table@.len(),
            want == rendered(grid_view(table@)),
            lines@.len() == r + 1,
            forall|j: int| 0 <= j < r + 1 ==> (#[trigger] lines@[j])@ == want[j],
        decreases table@.len() - r,
    {
        lines.push(bar_line(&table[r]));
        r += 1;
    }
    assert(views(lines@) =~= want);
    lines
}

} // verus!
