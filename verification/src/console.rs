//! Pure console presentation: queued output lines and table rendering. The
//! caller prints what this module computes; no I/O happens here.

use vstd::prelude::*;

verus! {

/// The width every table cell is padded to.
pub const COLUMN_WIDTH: usize = 25;

/// Reported when a table is rendered from rows with different cell counts.
#[derive(Clone, Copy, Debug, PartialEq, Eq, Structural)]
pub struct InconsistentRowLength;

/// `n` space characters.
pub open spec fn spaces(n: nat) -> Seq<char> {
    Seq::new(n, |i: int| ' ')
}

/// `s` padded with spaces to the column width; a longer cell is kept whole.
pub open spec fn pad_cell(s: Seq<char>) -> Seq<char> {
    if s.len() >= COLUMN_WIDTH {
        s
    } else {
        s + spaces((COLUMN_WIDTH - s.len()) as nat)
    }
}

/// One rendered cell: a space, the padded text, a space and the closing bar.
pub open spec fn cell_segment(s: Seq<char>) -> Seq<char> {
    seq![' '] + pad_cell(s) + seq![' ', '|']
}

/// One rendered table row: an opening bar followed by every cell's segment.
pub open spec fn row_line(cells: Seq<Seq<char>>) -> Seq<char>
    decreases cells.len(),
{
    if cells.len() == 0 {
        seq!['|']
    } else {
        row_line(cells.drop_last()) + cell_segment(cells.last())
    }
}

/// A rendered table: every row's line, each closed by a newline.
pub open spec fn table_text(rows: Seq<Seq<Seq<char>>>) -> Seq<char>
    decreases rows.len(),
{
    if rows.len() == 0 {
        Seq::<char>::empty()
    } else {
        table_text(rows.drop_last()) + row_line(rows.last()) + seq!['\n']
    }
}

/// A console that queues what should be displayed. The surrounding program
/// takes the queued lines and writes them to its output.
#[derive(Debug)]
pub struct Console {
    lines: Vec<String>,
}

impl View for Console {
    type V = Seq<Seq<char>>;

    closed spec fn view(&self) -> Seq<Seq<char>> {
        self.lines@.map_values(|s: String| s@)
    }
}

impl Console {
    /// A console with nothing queued.
    pub fn new() -> (r: Console)
        ensures
            r@ == Seq::<Seq<char>>::empty(),
    {
        let r = Console { lines: Vec::new() };
        proof {
            assert(r@ =~= Seq::<Seq<char>>::empty());
        }
        r
    }

    /// Queues one raw line.
    pub fn write(&mut self, out: String)
        ensures
            final(self)@ == old(self)@.push(out@),
    {
        self.lines.push(out);
        proof {
            assert(final(self)@ =~= old(self)@.push(self.lines@.last()@));
        }
    }

    /// Queues one message: the text followed by a blank separator line.
    pub fn writef(&mut self, out: String)
        ensures
            final(self)@ == old(self)@.push(out@).push(Seq::<char>::empty()),
    {
        let ghost before = self@;
        let ghost text = out@;
        self.lines.push(out);
        proof {
            assert(self@ =~= before.push(text));
        }
        self.lines.push(String::new());
        proof {
            assert(final(self)@ =~= before.push(text).push(Seq::<char>::empty()));
        }
    }

    /// Hands out everything queued, in order, and clears the queue.
    pub fn take_lines(&mut self) -> (r: Vec<String>)
        ensures
            r@.map_values(|s: String| s@) == old(self)@,
            final(self)@ == Seq::<Seq<char>>::empty(),
    {
        let mut out: Vec<String> = Vec::new();
        std::mem::swap(&mut out, &mut self.lines);
        proof {
            assert(final(self)@ =~= Seq::<Seq<char>>::empty());
        }
        out
    }

    /// Renders one table row: every cell padded to the column width and
    /// framed by bars.
    pub fn row(&self, row: &Vec<String>) -> (r: String)
        ensures
            r@ == row_line(row@.map_values(|s: String| s@)),
    {
        let ghost cells = row@.map_values(|s: String| s@);
        let mut out = String::new();
        out.append("|");
        proof {
            reveal_strlit("|");
            reveal_strlit(" ");
            reveal_strlit(" |");
            assert(cells.take(0) =~= Seq::<Seq<char>>::empty());
            assert(out@ =~= row_line(cells.take(0)));
        }
        let mut i: usize = 0;
        while i < row.len()
            invariant
                i <= cells.len(),
                cells.len() == row@.len(),
                cells == row@.map_values(|s: String| s@),
                out@ == row_line(cells.take(i as int)),
            decreases cells.len() - i,
        {
            proof {
                assert(cells.take(i + 1).drop_last() =~= cells.take(i as int));
                assert(cells.take(i + 1).last() == cells[i as int]);
            }
            out.append(" ");
            out.append(row[i].as_str());
            proof {
                assert(" "@ =~= seq![' ']);
                assert(out@ =~= row_line(cells.take(i as int)) + seq![' '] + cells[i as int]);
            }
            let width = row[i].as_str().unicode_len();
            let mut k: usize = width;
            while k < COLUMN_WIDTH
                invariant
                    cells[i as int].len() <= k,
                    k <= COLUMN_WIDTH || k == cells[i as int].len(),
                    out@ == row_line(cells.take(i as int)) + seq![' '] + cells[i as int] + spaces(
                        (k - cells[i as int].len()) as nat,
                    ),
                decreases COLUMN_WIDTH - k,
            {
                out.append(" ");
                k += 1;
                proof {
                    assert(spaces((k - cells[i as int].len()) as nat) =~= spaces(
                        (k - 1 - cells[i as int].len()) as nat,
                    ).push(' '));
                    assert(out@ =~= row_line(cells.take(i as int)) + seq![' '] + cells[i as int]
                        + spaces((k - cells[i as int].len()) as nat));
                }
            }
            proof {
                assert(spaces(0) =~= Seq::<char>::empty());
                assert(out@ =~= row_line(cells.take(i as int)) + seq![' '] + pad_cell(
                    cells[i as int],
                ));
            }
            out.append(" |");
            proof {
                assert(" |"@ =~= seq![' ', '|']);
                assert(out@ =~= row_line(cells.take(i + 1)));
            }
            i += 1;
        }
        proof {
            assert(cells.take(cells.len() as int) =~= cells);
        }
        out
    }

    /// Renders a whole table, one line per row. Rejected when two rows hold
    /// different numbers of cells.
    pub fn table(&self, rows: &Vec<Vec<String>>) -> (r: Result<String, InconsistentRowLength>)
        ensures
            match r {
                Ok(text) => (forall|i: int|
                    0 <= i < rows@.len() ==> (#[trigger] rows@[i])@.len() == rows@[0]@.len())
                    && text@ == table_text(
                    rows@.map_values(|row: Vec<String>| row@.map_values(|s: String| s@)),
                ),
                Err(_) => exists|i: int|
                    0 <= i < rows@.len() && (#[trigger] rows@[i])@.len() != rows@[0]@.len(),
            },
    {
        let ghost grid = rows@.map_values(|row: Vec<String>| row@.map_values(|s: String| s@));
        let mut i: usize = 0;
        while i < rows.len()
            invariant
                i <= rows@.len(),
                forall|k: int| 0 <= k < i ==> (#[trigger] rows@[k])@.len() == rows@[0]@.len(),
            decreases rows@.len() - i,
        {
            if rows[i].len() != rows[0].len() {
                return Err(InconsistentRowLength);
            }
            i += 1;
        }
        let mut out = String::new();
        proof {
            reveal_strlit("\n");
            assert(grid.take(0) =~= Seq::<Seq<Seq<char>>>::empty());
            assert(out@ =~= table_text(grid.take(0)));
        }
        let mut j: usize = 0;
        while j < rows.len()
            invariant
                j <= grid.len(),
                grid.len() == rows@.len(),
                grid == rows@.map_values(|row: Vec<String>| row@.map_values(|s: String| s@)),
                out@ == table_text(grid.take(j as int)),
            decreases grid.len() - j,
        {
            proof {
                assert(grid.take(j + 1).drop_last() =~= grid.take(j as int));
                assert(grid.take(j + 1).last() == grid[j as int]);
            }
            let line = self.row(&rows[j]);
            out.append(line.as_str());
            out.append("\n");
            proof {
                assert("\n"@ =~= seq!['\n']);
                assert(out@ =~= table_text(grid.take(j + 1)));
            }
            j += 1;
        }
        proof {
            assert(grid.take(grid.len() as int) =~= grid);
        }
        Ok(out)
    }
}

} // verus!
